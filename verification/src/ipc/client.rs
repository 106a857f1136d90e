//! The client's side: which request a command becomes, what is said about the
//! answer, which jobs a listing shows, and what their tables hold.
use std::collections::BTreeSet;

use vstd::prelude::*;

use super::job;
use super::job::{Job, JobState, JobView};
use super::protocol::{Request, Response};
use super::queue::AppStateView;
use crate::clock;
use crate::clock::{fmt_local, Timestamp};
use crate::cli::{Command, ConfigCommand, DaemonCommand, StateFilter};
use crate::text;
use crate::utils::pretty_table::table::TableView;
use crate::utils::pretty_table::Table;

verus! {

broadcast use vstd::std_specs::btree::group_btree_axioms;

// ---------------------------------------------------------------------------
// Commands
// ---------------------------------------------------------------------------

/// What is done to each job that a command names.
#[derive(Clone, Copy, Debug, PartialEq, Eq, Structural)]
pub enum IdAction {
    Kill,
    Rerun { priority: i32 },
    SetPriority { priority: i32 },
    Restart,
    Pause,
    Resume,
}

/// How a command is carried out.
#[allow(inconsistent_fields)]
#[derive(Debug)]
pub enum Dispatch {
    /// Follow the output of a job.
    Watch { id: Option<u32>, from_start: bool },
    /// Show a listing.
    List { all: bool, states: Vec<StateFilter>, by_id: bool },
    /// One request for each job that is named.
    Each { ids: Vec<String>, action: IdAction },
    /// One request for each job that is named before the last argument, which is
    /// the priority.
    Prioritise { args: Vec<String> },
    /// Resume every paused job, once it is clear that this is meant.
    ResumeAll,
    /// Run the daemon in this process.
    RunDaemon,
    /// A single request.
    Send { command: Command },
}

/// How each command is carried out.
pub open spec fn dispatched(command: Command) -> Dispatch {
    match command {
        Command::Watch { id, from_start } => Dispatch::Watch { id, from_start },
        Command::List { all, state, by_id } => Dispatch::List { all, states: state, by_id },
        Command::Kill { ids, all } => if all {
            Dispatch::Send { command }
        } else {
            Dispatch::Each { ids, action: IdAction::Kill }
        },
        Command::Priority { args } => Dispatch::Prioritise { args },
        Command::Rerun { ids, priority } => Dispatch::Each {
            ids,
            action: IdAction::Rerun { priority },
        },
        Command::Restart { ids } => Dispatch::Each { ids, action: IdAction::Restart },
        Command::Pause { ids } => if ids@.len() == 0 {
            Dispatch::Send { command }
        } else {
            Dispatch::Each { ids, action: IdAction::Pause }
        },
        Command::Resume { ids } => if ids@.len() == 0 {
            Dispatch::ResumeAll
        } else {
            Dispatch::Each { ids, action: IdAction::Resume }
        },
        Command::RunDaemon => Dispatch::RunDaemon,
        _ => Dispatch::Send { command },
    }
}

/// How a command is carried out.
pub fn dispatch(command: Command) -> (r: Dispatch)
    ensures
        r == dispatched(command),
{
    match command {
        Command::Watch { id, from_start } => Dispatch::Watch { id, from_start },
        Command::List { all, state, by_id } => Dispatch::List { all, states: state, by_id },
        Command::Kill { ids, all } => if all {
            Dispatch::Send { command: Command::Kill { ids, all } }
        } else {
            Dispatch::Each { ids, action: IdAction::Kill }
        },
        Command::Priority { args } => Dispatch::Prioritise { args },
        Command::Rerun { ids, priority } => Dispatch::Each {
            ids,
            action: IdAction::Rerun { priority },
        },
        Command::Restart { ids } => Dispatch::Each { ids, action: IdAction::Restart },
        Command::Pause { ids } => if ids.len() == 0 {
            Dispatch::Send { command: Command::Pause { ids } }
        } else {
            Dispatch::Each { ids, action: IdAction::Pause }
        },
        Command::Resume { ids } => if ids.len() == 0 {
            Dispatch::ResumeAll
        } else {
            Dispatch::Each { ids, action: IdAction::Resume }
        },
        Command::RunDaemon => Dispatch::RunDaemon,
        command => Dispatch::Send { command },
    }
}

/// Whether a command is carried out by a single request.
pub open spec fn is_single_request(command: Command) -> bool {
    dispatched(command) is Send
}

/// The request that a command becomes. A new job takes the caller's working
/// directory and environment with it.
pub open spec fn requested(
    command: Command,
    cwd: String,
    env: Vec<(String, String)>,
) -> Request {
    match command {
        Command::Add { label, gpus, priority, argv } => Request::Add {
            argv,
            label,
            cwd,
            gpus,
            priority,
            env,
        },
        Command::Info { id } => Request::Info { id },
        Command::Cat { id } => Request::Cat { id },
        Command::Kill { .. } => Request::KillAll,
        Command::Label { id, label } => Request::SetLabel { id, text: label },
        Command::Pause { .. } => Request::PauseAllQueued,
        Command::Remove { id } => Request::Remove { id },
        Command::Clear => Request::Clear,
        Command::Daemon { command } => match command {
            DaemonCommand::Devices => Request::GetDevices,
            DaemonCommand::Config { setting } => match setting {
                ConfigCommand::CpuLimit { limit } => match limit {
                    None => Request::GetCpuLimit,
                    Some(n) => Request::SetCpuLimit {
                        limit: if n == 0 {
                            None
                        } else {
                            Some(n)
                        },
                    },
                },
            },
            DaemonCommand::Shutdown => Request::Shutdown,
        },
        _ => Request::List,
    }
}

/// The request that a command becomes. `cwd` and `env` are the caller's, for a
/// new job to run under.
pub fn build_request(command: Command, cwd: String, env: Vec<(String, String)>) -> (r: Request)
    requires
        is_single_request(command),
    ensures
        r == requested(command, cwd, env),
{
    match command {
        Command::Add { label, gpus, priority, argv } => Request::Add {
            argv,
            label,
            cwd,
            gpus,
            priority,
            env,
        },
        Command::Info { id } => Request::Info { id },
        Command::Cat { id } => Request::Cat { id },
        Command::Kill { .. } => Request::KillAll,
        Command::Label { id, label } => Request::SetLabel { id, text: label },
        Command::Pause { .. } => Request::PauseAllQueued,
        Command::Remove { id } => Request::Remove { id },
        Command::Clear => Request::Clear,
        Command::Daemon { command } => match command {
            DaemonCommand::Devices => Request::GetDevices,
            // No argument -> query; a number sets it, with 0 meaning unlimited.
            DaemonCommand::Config { setting } => match setting {
                ConfigCommand::CpuLimit { limit } => match limit {
                    None => Request::GetCpuLimit,
                    Some(0) => Request::SetCpuLimit { limit: None },
                    Some(n) => Request::SetCpuLimit { limit: Some(n) },
                },
            },
            DaemonCommand::Shutdown => Request::Shutdown,
        },
        _ => {
            assert(false);
            Request::List
        },
    }
}

impl IdAction {
    /// The request that does this to job `id`.
    pub open spec fn spec_request(self, id: u32) -> Request {
        match self {
            IdAction::Kill => Request::Kill { id },
            IdAction::Rerun { priority } => Request::Rerun { id, priority },
            IdAction::SetPriority { priority } => Request::SetPriority { id, priority },
            IdAction::Restart => Request::Restart { id },
            IdAction::Pause => Request::PauseJob { id },
            IdAction::Resume => Request::ResumeJob { id },
        }
    }

    /// The request that does this to job `id`.
    pub fn request(self, id: u32) -> (r: Request)
        ensures
            r == self.spec_request(id),
    {
        match self {
            IdAction::Kill => Request::Kill { id },
            IdAction::Rerun { priority } => Request::Rerun { id, priority },
            IdAction::SetPriority { priority } => Request::SetPriority { id, priority },
            IdAction::Restart => Request::Restart { id },
            IdAction::Pause => Request::PauseJob { id },
            IdAction::Resume => Request::ResumeJob { id },
        }
    }

    pub open spec fn spec_name(self) -> Seq<char> {
        match self {
            IdAction::Kill => "kill"@,
            IdAction::Rerun { .. } => "rerun"@,
            IdAction::SetPriority { .. } => "set-priority"@,
            IdAction::Restart => "restart"@,
            IdAction::Pause => "pause"@,
            IdAction::Resume => "resume"@,
        }
    }

    /// What this is called when the daemon's answer makes no sense.
    pub fn name(self) -> (r: &'static str)
        ensures
            r@ == self.spec_name(),
    {
        match self {
            IdAction::Kill => "kill",
            IdAction::Rerun { .. } => "rerun",
            IdAction::SetPriority { .. } => "set-priority",
            IdAction::Restart => "restart",
            IdAction::Pause => "pause",
            IdAction::Resume => "resume",
        }
    }
}

/// What is said about the daemon's answer to one of several requests.
#[derive(Debug)]
pub enum Remark {
    /// A line for standard output.
    Print(String),
    /// A line for standard error; the client fails in the end, but goes on.
    Complain(String),
    /// An answer that does not belong to the request; the client stops.
    Unexpected,
}

/// How an error is shown.
pub open spec fn error_line(message: Seq<char>) -> Seq<char> {
    "[ERROR] "@ + message
}

/// How an error is shown.
pub fn show_error(message: &str) -> (r: String)
    ensures
        r@ == error_line(message@),
{
    text::concat("[ERROR] ", message)
}

/// What is said about the daemon's answer to one of several requests.
pub open spec fn judged(response: Response, remark: Remark) -> bool {
    match response {
        Response::Done(message) => remark == Remark::Print(message),
        Response::Error(message) => remark matches Remark::Complain(line) && line@ == error_line(
            message@,
        ),
        _ => remark is Unexpected,
    }
}

/// What is said about the daemon's answer to one of several requests.
pub fn judge(response: Response) -> (r: Remark)
    ensures
        judged(response, r),
{
    match response {
        Response::Done(message) => Remark::Print(message),
        Response::Error(message) => Remark::Complain(show_error(message.as_str())),
        _ => Remark::Unexpected,
    }
}

/// The job that the daemon's answer to `Info` holds: none where it says that there
/// is no such job. An answer that does not belong to the request comes back.
pub fn info_reply(response: Response) -> (r: Result<Option<Job>, Response>)
    ensures
        r == match response {
            Response::Job(job) => Ok(Some(job)),
            Response::Error(_) => Ok(None),
            other => Err(other),
        },
{
    match response {
        Response::Job(job) => Ok(Some(job)),
        Response::Error(_) => Ok(None),
        other => Err(other),
    }
}

/// What the daemon answers to `List`.
#[derive(Debug)]
pub enum ListReply {
    /// Every job.
    Jobs(Vec<Job>),
    /// A line for standard error, after which the client fails.
    Failure(String),
    /// An answer that does not belong to the request.
    Unexpected(Response),
}

/// What the daemon answers to `List`.
pub fn list_reply(response: Response) -> (r: ListReply)
    ensures
        match response {
            Response::Jobs(jobs) => r == ListReply::Jobs(jobs),
            Response::Error(message) => r matches ListReply::Failure(line) && line@ == error_line(
                message@,
            ),
            other => r == ListReply::Unexpected(other),
        },
{
    match response {
        Response::Jobs(jobs) => ListReply::Jobs(jobs),
        Response::Error(message) => ListReply::Failure(show_error(message.as_str())),
        other => ListReply::Unexpected(other),
    }
}

// ---------------------------------------------------------------------------
// Connecting
// ---------------------------------------------------------------------------

/// What the client does to reach the daemon.
#[derive(Clone, Copy, Debug, PartialEq, Eq, Structural)]
pub enum ConnectMove {
    /// Try to connect.
    Connect,
    /// Start the daemon, and try to connect.
    StartDaemon,
    /// Fail.
    GiveUp,
}

/// What the client does to reach the daemon, and how long it waits before that.
#[derive(Clone, Copy, Debug, PartialEq, Eq, Structural)]
pub struct ConnectStep {
    pub wait_ms: u64,
    pub next: ConnectMove,
}

/// What the client does once it has failed to connect `failed` times. If nothing
/// is listening, it starts the daemon, which gets a hundred tries, 50 ms apart, to
/// create its socket.
pub fn connect_step(failed: u32) -> (r: ConnectStep)
    ensures
        r.wait_ms == (if failed <= 1 {
            0int
        } else {
            50
        }),
        r.next == (if failed == 1 {
            ConnectMove::StartDaemon
        } else if failed <= 100 {
            ConnectMove::Connect
        } else {
            ConnectMove::GiveUp
        }),
{
    if failed == 0 {
        ConnectStep { wait_ms: 0, next: ConnectMove::Connect }
    } else if failed == 1 {
        ConnectStep { wait_ms: 0, next: ConnectMove::StartDaemon }
    } else if failed <= 100 {
        ConnectStep { wait_ms: 50, next: ConnectMove::Connect }
    } else {
        ConnectStep { wait_ms: 50, next: ConnectMove::GiveUp }
    }
}

// ---------------------------------------------------------------------------
// Job ids
// ---------------------------------------------------------------------------

/// Why an argument does not name jobs.
#[derive(Debug)]
pub enum IdError {
    /// One end of a range is not a job id.
    BadRange { arg: String },
    /// A range that ends before it starts.
    Backwards { arg: String, start: u32, end: u32 },
    /// Not a job id.
    BadId { arg: String },
}

/// Why an argument does not name jobs, as a mathematical value.
pub enum IdErrorView {
    BadRange { arg: Seq<char> },
    Backwards { arg: Seq<char>, start: u32, end: u32 },
    BadId { arg: Seq<char> },
}

impl View for IdError {
    type V = IdErrorView;

    open spec fn view(&self) -> IdErrorView {
        match *self {
            IdError::BadRange { arg } => IdErrorView::BadRange { arg: arg@ },
            IdError::Backwards { arg, start, end } => IdErrorView::Backwards {
                arg: arg@,
                start,
                end,
            },
            IdError::BadId { arg } => IdErrorView::BadId { arg: arg@ },
        }
    }
}

impl IdErrorView {
    /// What is wrong, in words.
    pub open spec fn text(self) -> Seq<char> {
        match self {
            IdErrorView::BadRange { arg } => "invalid id in range '"@ + arg + "'"@,
            IdErrorView::Backwards { arg, start, end } => "invalid range '"@ + arg + "': start ("@
                + text::decimal(start as nat) + ") is greater than end ("@ + text::decimal(
                end as nat,
            ) + ")"@,
            IdErrorView::BadId { arg } => "'"@ + arg + "' is not a valid job id"@,
        }
    }
}

impl IdError {
    /// What is wrong, in words.
    pub fn message(&self) -> (r: String)
        ensures
            r@ == self@.text(),
    {
        match self {
            IdError::BadRange { arg } => {
                let mut s = text::concat("invalid id in range '", arg.as_str());
                s.append("'");
                s
            },
            IdError::Backwards { arg, start, end } => {
                let mut s = text::concat("invalid range '", arg.as_str());
                s.append("': start (");
                s.append(text::u32_text(*start).as_str());
                s.append(") is greater than end (");
                s.append(text::u32_text(*end).as_str());
                s.append(")");
                s
            },
            IdError::BadId { arg } => {
                let mut s = text::concat("'", arg.as_str());
                s.append("' is not a valid job id");
                s
            },
        }
    }
}

/// The index of the first hyphen of `s[from..]`, or the length of `s`.
pub open spec fn first_hyphen(s: Seq<char>, from: int) -> int
    decreases s.len() - from,
{
    if from >= s.len() {
        s.len() as int
    } else if s[from] == '-' {
        from
    } else {
        first_hyphen(s, from + 1)
    }
}

/// The first and the last job that an argument names: a range is two ids with a
/// hyphen between them.
pub open spec fn id_range(arg: Seq<char>) -> Result<(u32, u32), IdErrorView> {
    let at = first_hyphen(arg, 0);
    if at < arg.len() {
        match (text::parsed_u32(arg.take(at)), text::parsed_u32(arg.skip(at + 1))) {
            (Some(start), Some(end)) => if start > end {
                Err(IdErrorView::Backwards { arg, start, end })
            } else {
                Ok((start, end))
            },
            _ => Err(IdErrorView::BadRange { arg }),
        }
    } else {
        match text::parsed_u32(arg) {
            Some(id) => Ok((id, id)),
            None => Err(IdErrorView::BadId { arg }),
        }
    }
}

/// What is wrong with the first argument that does not name jobs, if there is
/// one.
pub open spec fn first_id_error(args: Seq<Seq<char>>) -> Option<IdErrorView>
    decreases args.len(),
{
    if args.len() == 0 {
        None
    } else {
        match first_id_error(args.drop_last()) {
            Some(e) => Some(e),
            None => match id_range(args.last()) {
                Ok(_) => None,
                Err(e) => Some(e),
            },
        }
    }
}

/// Whether an argument names job `id`.
pub open spec fn names_job(arg: Seq<char>, id: u32) -> bool {
    id_range(arg) matches Ok((start, end)) && start <= id <= end
}

/// Whether one of the arguments names job `id`.
pub open spec fn some_names_job(args: Seq<Seq<char>>, id: u32) -> bool {
    exists|i: int| 0 <= i < args.len() && names_job(#[trigger] args[i], id)
}

/// Whether numbers stand in increasing order, each once.
pub open spec fn increasing(ids: Seq<u32>) -> bool {
    forall|i: int, j: int| 0 <= i < j < ids.len() ==> ids[i] < ids[j]
}

fn parse_id_range(arg: &str) -> (r: Result<(u32, u32), IdError>)
    ensures
        match r {
            Ok(range) => id_range(arg@) == Ok::<(u32, u32), IdErrorView>(range),
            Err(e) => id_range(arg@) == Err::<(u32, u32), IdErrorView>(e@),
        },
{
    let chars = text::chars_of(arg);
    let n: usize = chars.len();
    let mut at: usize = 0;
    while at < n && chars[at] != '-'
        invariant
            chars@ == arg@,
            n == chars@.len(),
            at <= n,
            first_hyphen(arg@, 0) == first_hyphen(arg@, at as int),
        ensures
            at <= n,
            at == first_hyphen(arg@, 0),
        decreases n - at,
    {
        at = at + 1;
    }
    if at < n {
        let start = text::text_of(&chars, 0, at);
        let end = text::text_of(&chars, at + 1, n);
        assert(start@ == arg@.take(at as int));
        assert(end@ == arg@.skip(at + 1));
        match (text::parse_u32(start.as_str()), text::parse_u32(end.as_str())) {
            (Some(start), Some(end)) => if start > end {
                Err(IdError::Backwards { arg: arg.to_owned(), start, end })
            } else {
                Ok((start, end))
            },
            _ => Err(IdError::BadRange { arg: arg.to_owned() }),
        }
    } else {
        match text::parse_u32(arg) {
            Some(id) => Ok((id, id)),
            None => Err(IdError::BadId { arg: arg.to_owned() }),
        }
    }
}

/// The members of a set of numbers, in increasing order.
fn in_order(set: &BTreeSet<u32>) -> (r: Vec<u32>)
    ensures
        increasing(r@),
        forall|x: u32| #[trigger] r@.contains(x) <==> set@.contains(x),
{
    let mut out: Vec<u32> = Vec::new();
    let ghost members = vstd::std_specs::iter::IteratorSpec::remaining(&set.iter());
    for x in it: set.iter()
        invariant
            it.seq() == members,
            out@.len() == it.index(),
            forall|i: int| 0 <= i < it.index() ==> out@[i] == *(#[trigger] members[i]),
    {
        out.push(*x);
    }
    proof {
        assert(out@ =~= members.unref());
        lemma_increasing_refs(members);
        assert forall|x: u32| #[trigger] out@.contains(x) <==> set@.contains(x) by {
            assert(out@.to_set().contains(x) <==> out@.contains(x));
        }
    }
    out
}

/// What vstd calls increasing is increasing.
proof fn lemma_increasing_refs(s: Seq<&u32>)
    requires
        vstd::std_specs::btree::increasing_seq(s),
    ensures
        forall|i: int, j: int| 0 <= i < j < s.len() ==> *s[i] < *s[j],
{
    broadcast use vstd::laws_cmp::group_laws_cmp;

    assert forall|i: int, j: int| 0 <= i < j < s.len() implies *s[i] < *s[j] by {
        assert(vstd::std_specs::cmp::OrdSpec::cmp_spec(&s[i], &s[j]) is Less);
    }
}

/// Expand a slice of id args (plain numbers or `start-end` ranges) into a
/// sorted, deduplicated list of job ids.
pub fn parse_job_ids(args: &[String]) -> (r: Result<Vec<u32>, IdError>)
    ensures
        match r {
            Ok(ids) => {
                &&& first_id_error(args.deep_view()) is None
                &&& increasing(ids@)
                &&& forall|id: u32| #[trigger]
                    ids@.contains(id) <==> some_names_job(args.deep_view(), id)
            },
            Err(e) => first_id_error(args.deep_view()) == Some(e@),
        },
{
    let mut seen: BTreeSet<u32> = BTreeSet::new();
    let ghost texts = args.deep_view();
    for i in 0..args.len()
        invariant
            texts == args.deep_view(),
            first_id_error(texts.take(i as int)) is None,
            forall|id: u32| #[trigger]
                seen@.contains(id) <==> some_names_job(texts.take(i as int), id),
    {
        let ghost before = seen@;
        assert(texts.take(i + 1).drop_last() == texts.take(i as int));
        assert(texts.take(i + 1).last() == args@[i as int]@);
        let (start, end): (u32, u32) = match parse_id_range(args[i].as_str()) {
            Ok(range) => range,
            Err(e) => {
                proof {
                    lemma_first_error_stays(texts, i + 1);
                }
                return Err(e);
            },
        };
        let mut id: u32 = start;
        loop
            invariant_except_break
                start <= id <= end,
                forall|x: u32| #[trigger]
                    seen@.contains(x) <==> before.contains(x) || start <= x < id,
            ensures
                forall|x: u32| #[trigger]
                    seen@.contains(x) <==> before.contains(x) || start <= x <= end,
            decreases end - id,
        {
            seen.insert(id);
            if id == end {
                break;
            }
            id = id + 1;
        }
        assert forall|x: u32| #[trigger]
            seen@.contains(x) <==> some_names_job(texts.take(i + 1), x) by {
            let short = texts.take(i as int);
            let long = texts.take(i + 1);
            if some_names_job(short, x) {
                let k = choose|k: int| 0 <= k < short.len() && names_job(#[trigger] short[k], x);
                assert(names_job(long[k], x));
            }
            if start <= x <= end {
                assert(names_job(long[i as int], x));
            }
            if some_names_job(long, x) {
                let k = choose|k: int| 0 <= k < long.len() && names_job(#[trigger] long[k], x);
                if k < i {
                    assert(names_job(short[k], x));
                }
            }
        }
    }
    assert(texts.take(texts.len() as int) == texts);
    Ok(in_order(&seen))
}

/// What is wrong with the first arguments stays wrong with all of them.
proof fn lemma_first_error_stays(args: Seq<Seq<char>>, n: int)
    requires
        0 <= n <= args.len(),
        first_id_error(args.take(n)) is Some,
    ensures
        first_id_error(args) == first_id_error(args.take(n)),
    decreases args.len() - n,
{
    if n == args.len() {
        assert(args.take(n) == args);
    } else {
        assert(args.take(n + 1).drop_last() == args.take(n));
        lemma_first_error_stays(args, n + 1);
    }
}

/// Why the arguments of a priority change make no sense.
#[derive(Debug)]
pub enum PriorityError {
    /// The last argument is not a number.
    BadPriority { arg: String },
    /// One of the others does not name jobs.
    Ids(IdError),
}

impl PriorityError {
    /// What is wrong, in words.
    pub open spec fn text(self) -> Seq<char> {
        match self {
            PriorityError::BadPriority { arg } => "'"@ + arg@
                + "' is not a valid priority value (expected integer)"@,
            PriorityError::Ids(e) => e@.text(),
        }
    }

    /// What is wrong, in words.
    pub fn message(&self) -> (r: String)
        ensures
            r@ == self.text(),
    {
        match self {
            PriorityError::BadPriority { arg } => {
                let mut s = text::concat("'", arg.as_str());
                s.append("' is not a valid priority value (expected integer)");
                s
            },
            PriorityError::Ids(e) => e.message(),
        }
    }
}

/// The jobs and the priority that the arguments of a priority change name: the
/// last is the priority value and all preceding ones are job ids.
pub fn parse_priority_args(args: &Vec<String>) -> (r: Result<(Vec<u32>, i32), PriorityError>)
    requires
        args@.len() >= 2,
    ensures
        ({
            let texts = args.deep_view();
            match r {
                Ok((ids, priority)) => {
                    &&& text::parsed_i32(texts.last()) == Some(priority)
                    &&& first_id_error(texts.drop_last()) is None
                    &&& increasing(ids@)
                    &&& forall|id: u32| #[trigger]
                        ids@.contains(id) <==> some_names_job(texts.drop_last(), id)
                },
                Err(PriorityError::BadPriority { arg }) => arg@ == texts.last()
                    && text::parsed_i32(texts.last()) is None,
                Err(PriorityError::Ids(e)) => text::parsed_i32(texts.last()) is Some
                    && first_id_error(texts.drop_last()) == Some(e@),
            }
        }),
{
    let n: usize = args.len();
    let last = &args[n - 1];
    let ghost texts = args.deep_view();
    assert(last@ == texts.last());
    let priority: i32 = match text::parse_i32(last.as_str()) {
        Some(priority) => priority,
        None => return Err(PriorityError::BadPriority { arg: last.clone() }),
    };
    let mut ids: Vec<String> = Vec::new();
    for i in 0..n - 1
        invariant
            n == args@.len(),
            n >= 2,
            ids@ == args@.take(i as int),
    {
        ids.push(args[i].clone());
    }
    assert(ids.deep_view() =~= texts.drop_last());
    let slice = ids.as_slice();
    assert(slice.deep_view() =~= ids.deep_view());
    match parse_job_ids(slice) {
        Ok(ids) => Ok((ids, priority)),
        Err(e) => Err(PriorityError::Ids(e)),
    }
}

// ---------------------------------------------------------------------------
// Listings
// ---------------------------------------------------------------------------

/// Whether a filter lets a state through.
pub open spec fn lets_through(filter: StateFilter, state: JobState) -> bool {
    match filter {
        StateFilter::Queued => state is Queued,
        StateFilter::Paused => state is Paused,
        StateFilter::Running => state is Running,
        StateFilter::Finished => state is Finished,
        StateFilter::Killed => state is Killed,
        StateFilter::Failed => state is Failed,
    }
}

/// Whether a listing shows jobs in a state: in every state, in the chosen ones,
/// or by default in those of the jobs that run or wait.
pub open spec fn shows(all: bool, states: Seq<StateFilter>, state: JobState) -> bool {
    if all {
        true
    } else if states.len() == 0 {
        state is Running || state is Queued || state is Paused
    } else {
        exists|i: int| 0 <= i < states.len() && lets_through(#[trigger] states[i], state)
    }
}

pub fn filter_matches(filter: StateFilter, state: &JobState) -> (r: bool)
    ensures
        r == lets_through(filter, *state),
{
    match (filter, state) {
        (StateFilter::Queued, JobState::Queued) => true,
        (StateFilter::Paused, JobState::Paused) => true,
        (StateFilter::Running, JobState::Running) => true,
        (StateFilter::Finished, JobState::Finished) => true,
        (StateFilter::Killed, JobState::Killed) => true,
        (StateFilter::Failed, JobState::Failed) => true,
        _ => false,
    }
}

/// Whether a job's state passes the list filter.
pub fn state_wanted(all: bool, states: &[StateFilter], state: &JobState) -> (r: bool)
    ensures
        r == shows(all, states@, *state),
{
    if all {
        return true;
    }
    if states.len() == 0 {
        // Default view: only the jobs that are not over.
        return matches!(state, JobState::Running | JobState::Queued | JobState::Paused);
    }
    for i in 0..states.len()
        invariant
            forall|k: int| 0 <= k < i ==> !lets_through(#[trigger] states@[k], *state),
    {
        if filter_matches(states[i], state) {
            assert(lets_through(states@[i as int], *state));
            return true;
        }
    }
    false
}

/// Sort key for execution-order listing.
pub open spec fn order_key(job: JobView) -> (int, int, int) {
    match job.state {
        JobState::Running => (0, 0, job.id as int),
        JobState::Queued => (1, -job.priority, job.id as int),
        _ => (2, 0, job.id as int),
    }
}

/// Sort key for execution-order listing:
///   running jobs  (group 0) — by id
///   queued jobs   (group 1) — by descending priority then id (matches scheduler)
///   other jobs    (group 2) — by id
pub fn execution_order_key(job: &Job) -> (r: (u8, i64, u32))
    ensures
        (r.0 as int, r.1 as int, r.2 as int) == order_key(job@),
{
    match job.state {
        JobState::Running => (0, 0, job.id),
        JobState::Queued => (1, -(job.priority as i64), job.id),
        _ => (2, 0, job.id),
    }
}

/// Whether job `a` stands before job `b` in execution order, or in the same
/// place.
pub open spec fn not_after(a: JobView, b: JobView) -> bool {
    let (x, y) = (order_key(a), order_key(b));
    x.0 < y.0 || (x.0 == y.0 && (x.1 < y.1 || (x.1 == y.1 && x.2 <= y.2)))
}

/// How many of the first jobs stand before job `j` or in the same place.
pub open spec fn place_of(jobs: Seq<JobView>, j: JobView) -> nat
    decreases jobs.len(),
{
    if jobs.len() == 0 || not_after(jobs.last(), j) {
        jobs.len()
    } else {
        place_of(jobs.drop_last(), j)
    }
}

/// Jobs in execution order; jobs that stand in the same place keep their order.
pub open spec fn in_execution_order(jobs: Seq<JobView>) -> Seq<JobView>
    decreases jobs.len(),
{
    if jobs.len() == 0 {
        jobs
    } else {
        let rest = in_execution_order(jobs.drop_last());
        rest.insert(place_of(rest, jobs.last()) as int, jobs.last())
    }
}

fn key_not_after(x: (u8, i64, u32), y: (u8, i64, u32)) -> (r: bool)
    ensures
        r == (x.0 < y.0 || (x.0 == y.0 && (x.1 < y.1 || (x.1 == y.1 && x.2 <= y.2)))),
{
    if x.0 != y.0 {
        x.0 < y.0
    } else if x.1 != y.1 {
        x.1 < y.1
    } else {
        x.2 <= y.2
    }
}

proof fn lemma_place_of_bound(jobs: Seq<JobView>, j: JobView)
    ensures
        place_of(jobs, j) <= jobs.len(),
    decreases jobs.len(),
{
    if jobs.len() > 0 && !not_after(jobs.last(), j) {
        lemma_place_of_bound(jobs.drop_last(), j);
    }
}

/// Puts jobs into execution order.
fn sort_jobs(jobs: Vec<Job>) -> (r: Vec<Job>)
    ensures
        job::job_views(r@) == in_execution_order(job::job_views(jobs@)),
{
    let ghost views = job::job_views(jobs@);
    let mut out: Vec<Job> = Vec::new();
    for i in 0..jobs.len()
        invariant
            views == job::job_views(jobs@),
            job::job_views(out@) == in_execution_order(views.take(i as int)),
    {
        let next = jobs[i].clone();
        let key = execution_order_key(&next);
        let ghost sorted = job::job_views(out@);
        let mut at: usize = out.len();
        assert(sorted.take(at as int) == sorted);
        while at > 0 && !key_not_after(execution_order_key(&out[at - 1]), key)
            invariant
                at <= out@.len(),
                sorted == job::job_views(out@),
                (key.0 as int, key.1 as int, key.2 as int) == order_key(next@),
                place_of(sorted.take(at as int), next@) == place_of(sorted, next@),
            ensures
                at == place_of(sorted, next@),
                at <= out@.len(),
            decreases at,
        {
            assert(sorted.take(at as int).last() == out@[at - 1]@);
            assert(sorted.take(at as int).drop_last() == sorted.take(at - 1));
            at = at - 1;
        }
        assert(views.take(i + 1).drop_last() == views.take(i as int));
        assert(views.take(i + 1).last() == next@);
        out.insert(at, next);
        assert(job::job_views(out@) =~= sorted.insert(at as int, next@));
    }
    assert(views.take(views.len() as int) == views);
    out
}

/// The jobs that a listing shows, in the order it shows them: execution order in
/// the default view, else the order they came in.
pub open spec fn selected(
    jobs: Seq<JobView>,
    all: bool,
    states: Seq<StateFilter>,
    by_id: bool,
) -> Seq<JobView> {
    let kept = jobs.filter(|j: JobView| shows(all, states, j.state));
    if !by_id && !all && states.len() == 0 {
        in_execution_order(kept)
    } else {
        kept
    }
}

/// The jobs that a listing shows, in the order it shows them.
///
/// Default (no `all`, no `states`): the jobs that run or wait. `all` shows every
/// state; one or more `states` show exactly those. Jobs are sorted by execution
/// order for the default view only; the other views keep id order, as does the
/// default view with `by_id`.
pub fn select_jobs(
    jobs: Vec<Job>,
    all: bool,
    states: &[StateFilter],
    by_id: bool,
) -> (r: Vec<Job>)
    ensures
        job::job_views(r@) == selected(job::job_views(jobs@), all, states@, by_id),
{
    let ghost views = job::job_views(jobs@);
    let ghost wanted = |j: JobView| shows(all, states@, j.state);
    let mut kept: Vec<Job> = Vec::new();
    reveal(Seq::filter);
    assert(job::job_views(kept@) =~= views.take(0).filter(wanted));
    for i in 0..jobs.len()
        invariant
            views == job::job_views(jobs@),
            wanted == (|j: JobView| shows(all, states@, j.state)),
            job::job_views(kept@) == views.take(i as int).filter(wanted),
    {
        proof {
            super::queue::lemma_filter_step(views, i as int, wanted);
        }
        let ghost before = job::job_views(kept@);
        if state_wanted(all, states, &jobs[i].state) {
            let job = jobs[i].clone();
            kept.push(job);
            assert(job::job_views(kept@) =~= before.push(job@));
        }
    }
    assert(views.take(views.len() as int) == views);
    if !by_id && !all && states.len() == 0 {
        sort_jobs(kept)
    } else {
        kept
    }
}

/// What is said of a listing that shows no job.
pub open spec fn spec_empty_notice(all: bool, states: Seq<StateFilter>) -> Seq<char> {
    if all || states.len() > 0 {
        "(no matching jobs)"@
    } else {
        "(no running or queued jobs; pass --all to show every state)"@
    }
}

/// What is said of a listing that shows no job.
pub fn empty_notice(all: bool, states: &[StateFilter]) -> (r: &'static str)
    ensures
        r@ == spec_empty_notice(all, states@),
{
    if all || states.len() > 0 {
        "(no matching jobs)"
    } else {
        "(no running or queued jobs; pass --all to show every state)"
    }
}

proof fn lemma_not_after_total(a: JobView, b: JobView)
    ensures
        not_after(a, b) || not_after(b, a),
{
}

/// In jobs that stand in order, those before a job's place do not stand after
/// it, and those from there on do not stand before it.
proof fn lemma_place_of(jobs: Seq<JobView>, j: JobView)
    requires
        forall|i: int, k: int| 0 <= i < k < jobs.len() ==> not_after(jobs[i], jobs[k]),
    ensures
        forall|i: int| 0 <= i < place_of(jobs, j) ==> not_after(#[trigger] jobs[i], j),
        forall|i: int| place_of(jobs, j) <= i < jobs.len() ==> not_after(j, #[trigger] jobs[i]),
    decreases jobs.len(),
{
    lemma_place_of_bound(jobs, j);
    if jobs.len() > 0 {
        let last = jobs.last();
        if not_after(last, j) {
            assert forall|i: int| 0 <= i < jobs.len() implies not_after(#[trigger] jobs[i], j) by {
                if i < jobs.len() - 1 {
                    assert(not_after(jobs[i], jobs[jobs.len() - 1]));
                }
            }
        } else {
            let init = jobs.drop_last();
            lemma_place_of(init, j);
            lemma_not_after_total(last, j);
            assert forall|i: int| 0 <= i < place_of(jobs, j) implies not_after(
                #[trigger] jobs[i],
                j,
            ) by {
                lemma_place_of_bound(init, j);
                assert(not_after(init[i], j));
            }
            assert forall|i: int| place_of(jobs, j) <= i < jobs.len() implies not_after(
                j,
                #[trigger] jobs[i],
            ) by {
                if i < init.len() {
                    assert(not_after(j, init[i]));
                }
            }
        }
    }
}

/// Execution order is an order of the same jobs: none is lost or made up, and
/// no job stands before one that comes earlier.
pub proof fn law_execution_order_sorts(jobs: Seq<JobView>)
    ensures
        in_execution_order(jobs).to_multiset() == jobs.to_multiset(),
        in_execution_order(jobs).len() == jobs.len(),
        forall|i: int, k: int|
            0 <= i < k < jobs.len() ==> not_after(
                #[trigger] in_execution_order(jobs)[i],
                #[trigger] in_execution_order(jobs)[k],
            ),
    decreases jobs.len(),
{
    if jobs.len() > 0 {
        broadcast use vstd::seq_lib::group_to_multiset_ensures;

        let init = jobs.drop_last();
        let last = jobs.last();
        law_execution_order_sorts(init);
        let rest = in_execution_order(init);
        let at = place_of(rest, last) as int;
        lemma_place_of_bound(rest, last);
        lemma_place_of(rest, last);
        let all = rest.insert(at, last);
        assert(jobs == init.push(last));
        assert(all.to_multiset() == rest.to_multiset().insert(last));
        assert forall|i: int, k: int| 0 <= i < k < jobs.len() implies not_after(
            #[trigger] all[i],
            #[trigger] all[k],
        ) by {
            if i < at && k > at {
                assert(not_after(rest[i], rest[k - 1]));
            } else if i < at && k < at {
                assert(not_after(rest[i], rest[k]));
            } else if i > at {
                assert(not_after(rest[i - 1], rest[k - 1]));
            } else if i < at {
                assert(not_after(rest[i], last));
            } else {
                assert(not_after(last, rest[k - 1]));
            }
        }
    }
}

/// A listing shows queued jobs in the order in which the scheduler would start
/// them, and running jobs before them.
pub proof fn law_listing_matches_the_scheduler(s: AppStateView, a: u32, b: u32)
    requires
        s.in_state(a, JobState::Queued),
        s.jobs[a].id != s.jobs[b].id,
    ensures
        s.in_state(b, JobState::Queued) ==> (not_after(s.jobs[a], s.jobs[b]) <==> s.ahead(a, b)),
        s.in_state(b, JobState::Running) ==> not_after(s.jobs[b], s.jobs[a]) && !not_after(
            s.jobs[a],
            s.jobs[b],
        ),
{
}

// ---------------------------------------------------------------------------
// Watching
// ---------------------------------------------------------------------------

/// What a request to watch a certain job comes to.
#[derive(Debug)]
pub enum WatchTarget {
    Follow { id: u32 },
    /// There is no such job; the client says so and fails.
    Missing { error: String },
    /// Only running jobs can be followed.
    NotRunning { warning: String, hint: Option<String> },
}

/// What is said of a job that is to be watched and does not run.
pub open spec fn not_running_warning(id: u32, state: JobState) -> Seq<char> {
    "[WARN] job "@ + text::decimal(id as nat) + " is "@ + state.state_name()
        + ", not running; watch only follows running jobs."@
}

/// Where the output of a job that is over can be found.
pub open spec fn cat_hint(id: u32) -> Seq<char> {
    "(use `msc cat "@ + text::decimal(id as nat) + "` to see its captured output)"@
}

/// What a request to watch job `id` comes to, given the job if there is one.
/// Only a job that is currently running is followed.
pub fn resolve_watch_target(id: u32, job: Option<Job>) -> (r: WatchTarget)
    ensures
        match job {
            None => r matches WatchTarget::Missing { error } && error@ == error_line(
                "No such job (id "@ + text::decimal(id as nat) + ")"@,
            ),
            Some(job) => if job.state == JobState::Running {
                r matches WatchTarget::Follow { id: target } && target == job.id
            } else {
                r matches WatchTarget::NotRunning { warning, hint } && warning@
                    == not_running_warning(id, job.state) && hint.deep_view() == (
                if job.state.terminal() {
                    Some(cat_hint(id))
                } else {
                    None
                })
            },
        },
{
    let job = match job {
        None => {
            let message = text::around_u32("No such job (id ", id, ")");
            return WatchTarget::Missing { error: show_error(message.as_str()) };
        },
        Some(job) => job,
    };
    if job.state == JobState::Running {
        return WatchTarget::Follow { id: job.id };
    }
    let mut warning = text::around_u32("[WARN] job ", id, " is ");
    warning.append(job.state.as_str());
    warning.append(", not running; watch only follows running jobs.");
    let hint: Option<String> = if job.state.is_terminal() {
        Some(text::around_u32("(use `msc cat ", id, "` to see its captured output)"))
    } else {
        None
    };
    WatchTarget::NotRunning { warning, hint }
}

/// Which job is watched when none is named.
#[derive(Debug)]
pub enum Pick {
    Nothing,
    One { id: u32 },
    Several { jobs: Vec<Job> },
}

/// The running ones of some jobs.
pub open spec fn running_jobs(jobs: Seq<JobView>) -> Seq<JobView> {
    jobs.filter(|j: JobView| j.state == JobState::Running)
}

/// Pick a running job to watch when no id is given: the sole running job if
/// there is exactly one, otherwise the running jobs to choose from.
pub fn pick_running_job(jobs: Vec<Job>) -> (r: Pick)
    ensures
        ({
            let running = running_jobs(job::job_views(jobs@));
            match r {
                Pick::Nothing => running.len() == 0,
                Pick::One { id } => running.len() == 1 && id == running[0].id,
                Pick::Several { jobs } => running.len() > 1 && job::job_views(jobs@) == running,
            }
        }),
{
    let ghost views = job::job_views(jobs@);
    let ghost runs = |j: JobView| j.state == JobState::Running;
    let mut running: Vec<Job> = Vec::new();
    reveal(Seq::filter);
    assert(job::job_views(running@) =~= views.take(0).filter(runs));
    for i in 0..jobs.len()
        invariant
            views == job::job_views(jobs@),
            runs == (|j: JobView| j.state == JobState::Running),
            job::job_views(running@) == views.take(i as int).filter(runs),
    {
        proof {
            super::queue::lemma_filter_step(views, i as int, runs);
        }
        let ghost before = job::job_views(running@);
        if jobs[i].state == JobState::Running {
            let job = jobs[i].clone();
            running.push(job);
            assert(job::job_views(running@) =~= before.push(job@));
        }
    }
    assert(views.take(views.len() as int) == views);
    assert(job::job_views(running@).len() == running@.len());
    if running.len() == 0 {
        Pick::Nothing
    } else if running.len() == 1 {
        assert(job::job_views(running@)[0] == running@[0]@);
        Pick::One { id: running[0].id }
    } else {
        Pick::Several { jobs: running }
    }
}

/// One round of following a job's output.
#[derive(Debug)]
pub enum FollowStep {
    /// The job is gone; say so and stop.
    Gone { notice: String },
    /// Print what is new, wait, and look again.
    GoOn,
    /// Print what is new, twice in case bytes landed in between, say how the
    /// job ended and stop.
    Over { notice: String },
}

/// What to do next while following job `id`, given the state it is in if it
/// still exists.
pub fn follow_step(id: u32, state: Option<JobState>) -> (r: FollowStep)
    ensures
        match state {
            None => r matches FollowStep::Gone { notice } && notice@ == "(job "@ + text::decimal(
                id as nat,
            ) + " no longer exists)"@,
            Some(state) => if state.terminal() {
                r matches FollowStep::Over { notice } && notice@ == "(job "@ + text::decimal(
                    id as nat,
                ) + " "@ + state.state_name() + ")"@
            } else {
                r is GoOn
            },
        },
{
    match state {
        None => FollowStep::Gone { notice: text::around_u32("(job ", id, " no longer exists)") },
        Some(state) => if state.is_terminal() {
            let mut notice = text::around_u32("(job ", id, " ");
            notice.append(state.as_str());
            notice.append(")");
            FollowStep::Over { notice }
        } else {
            FollowStep::GoOn
        },
    }
}

/// Where in the log following starts: at its beginning, or at its present end.
pub fn follow_start(from_start: bool, log_len: u64) -> (pos: u64)
    ensures
        pos == (if from_start {
            0
        } else {
            log_len
        }),
{
    if from_start {
        0
    } else {
        log_len
    }
}

// ---------------------------------------------------------------------------
// Resuming everything
// ---------------------------------------------------------------------------

/// Whether resuming every paused job needs a confirmation: some jobs are still
/// queued, so not everything that waits was paused.
pub fn resume_needs_confirmation(jobs: &Vec<Job>) -> (r: bool)
    ensures
        r == exists|i: int|
            0 <= i < jobs@.len() && (#[trigger] jobs@[i]).state == JobState::Queued,
{
    for i in 0..jobs.len()
        invariant
            forall|k: int| 0 <= k < i ==> (#[trigger] jobs@[k]).state != JobState::Queued,
    {
        if jobs[i].state == JobState::Queued {
            assert(jobs@[i as int].state == JobState::Queued);
            return true;
        }
    }
    false
}

/// Whether an answer to a question means yes.
pub fn is_yes(answer: &str) -> (r: bool)
    ensures
        r == ({
            let said = text::ascii_lowered(text::trimmed(answer@));
            said == "y"@ || said == "yes"@
        }),
{
    let said = text::lower_text(&text::trim_chars(answer));
    text::same_text(said.as_str(), "y") || text::same_text(said.as_str(), "yes")
}

// ---------------------------------------------------------------------------
// Tables
// ---------------------------------------------------------------------------

/// GPU indices as a table shows them.
pub open spec fn gpu_list(indices: Seq<u32>) -> Seq<char> {
    "["@ + text::joined(text::decimals(indices), ","@) + "]"@
}

/// Render assigned GPU indices like `[0,2]` for table display.
pub fn format_gpu_list(indices: &Vec<u32>) -> (r: String)
    ensures
        r@ == gpu_list(indices@),
{
    let mut s = "[".to_owned();
    s.append(text::join_numbers(indices, ",").as_str());
    s.append("]");
    s
}

/// Whether a job's GPU indices are worth showing: only a running job holds any.
pub open spec fn shows_assigned(job: JobView) -> bool {
    job.state == JobState::Running && job.assigned_gpus.len() > 0
}

/// How a count of GPUs is shown.
pub open spec fn gpu_count_cell(gpus: u32) -> Seq<char> {
    if gpus > 0 {
        text::decimal(gpus as nat)
    } else {
        "-"@
    }
}

/// How an exit code is shown.
pub open spec fn exit_cell(code: Option<i32>) -> Seq<char> {
    match code {
        Some(code) => text::signed_decimal(code as int),
        None => "-"@,
    }
}

/// How a label is shown.
pub open spec fn label_cell(label: Option<Seq<char>>) -> Seq<char> {
    match label {
        Some(label) => label,
        None => ""@,
    }
}

/// The row of a job in a listing.
pub open spec fn listing_row(job: JobView) -> Seq<Seq<char>> {
    seq![
        text::decimal(job.id as nat),
        job.state.state_name(),
        exit_cell(job.exit_code),
        text::signed_decimal(job.priority as int),
        if shows_assigned(job) {
            gpu_list(job.assigned_gpus)
        } else {
            gpu_count_cell(job.gpus)
        },
        label_cell(job.label),
        text::joined(job.argv, " "@),
    ]
}

/// The header of a listing.
pub open spec fn listing_header() -> Seq<Seq<char>> {
    seq!["id"@, "state"@, "exit"@, "pri"@, "gpus"@, "label"@, "command"@]
}

fn dash() -> (r: String)
    ensures
        r@ == "-"@,
{
    "-".to_owned()
}

fn gpu_count_text(gpus: u32) -> (r: String)
    ensures
        r@ == gpu_count_cell(gpus),
{
    if gpus > 0 {
        text::u32_text(gpus)
    } else {
        dash()
    }
}

fn exit_text(code: Option<i32>) -> (r: String)
    ensures
        r@ == exit_cell(code),
{
    match code {
        Some(code) => text::i32_text(code),
        None => dash(),
    }
}

fn label_text(label: &Option<String>) -> (r: String)
    ensures
        r@ == label_cell(label.deep_view()),
{
    match label {
        Some(label) => label.clone(),
        None => "".to_owned(),
    }
}

fn job_row(job: &Job) -> (r: Vec<String>)
    ensures
        r.deep_view() == listing_row(job@),
{
    // Show the assigned indices while running, otherwise the request count.
    let gpus = if job.state == JobState::Running && job.assigned_gpus.len() > 0 {
        format_gpu_list(&job.assigned_gpus)
    } else {
        gpu_count_text(job.gpus)
    };
    let mut row: Vec<String> = Vec::new();
    row.push(text::u32_text(job.id));
    row.push(job.state.as_str().to_owned());
    row.push(exit_text(job.exit_code));
    row.push(text::i32_text(job.priority));
    row.push(gpus);
    row.push(label_text(&job.label));
    row.push(job.command_line());
    assert(row.deep_view() =~= listing_row(job@));
    row
}

/// Whether a table is the listing of some jobs, kept to a width if there is one
/// by cutting the command.
pub open spec fn is_listing(t: TableView, jobs: Seq<JobView>, width: Option<usize>) -> bool {
    &&& t.has_default_look()
    &&& t.header == listing_header()
    &&& t.rows == jobs.map_values(|j: JobView| listing_row(j))
    &&& t.right_aligned == seq![0usize]
    &&& t.max_width == width
    &&& t.flex_column == (if width is Some {
        Some(6usize)
    } else {
        None
    })
    &&& !t.wrap
}

/// The table of a listing. With a `width`, the (last) command column is
/// truncated so that the table keeps to it.
pub fn jobs_table(jobs: &Vec<Job>, width: Option<usize>) -> (t: Table)
    ensures
        is_listing(t@, job::job_views(jobs@), width),
        t@.complete(),
{
    let ghost views = job::job_views(jobs@);
    let mut rows: Vec<Vec<String>> = Vec::new();
    for i in 0..jobs.len()
        invariant
            views == job::job_views(jobs@),
            rows@.len() == i,
            forall|k: int| 0 <= k < i ==> (#[trigger] rows@[k]).deep_view() == listing_row(views[k]),
    {
        rows.push(job_row(&jobs[i]));
    }
    let mut table = Table::new();
    let _ = table.set_header(vec!["id", "state", "exit", "pri", "gpus", "label", "command"]);
    assert(table@.header =~= listing_header());
    let _ = table.add_rows(rows);
    assert(table@.rows =~= views.map_values(|j: JobView| listing_row(j)));
    // Right-align the numeric id column.
    let _ = table.right_align_column(0);
    assert(table@.right_aligned =~= seq![0usize]);
    if let Some(width) = width {
        let _ = table.fit_to_width(width, 6);
    }
    table
}

/// How a point in time is shown that may not have come yet.
pub open spec fn time_cell(time: Option<Seq<char>>) -> Seq<char> {
    match time {
        Some(time) => time,
        None => "-"@,
    }
}

/// The rows of the details of a job. The times are given as they are shown.
pub open spec fn detail_rows(
    job: JobView,
    enqueued: Seq<char>,
    started: Option<Seq<char>>,
    finished: Option<Seq<char>>,
) -> Seq<Seq<Seq<char>>> {
    seq![
        seq!["id"@, text::decimal(job.id as nat)],
        seq!["state"@, job.state.state_name()],
        seq!["label"@, label_cell(job.label)],
        seq!["command"@, text::joined(job.argv, " "@)],
        seq!["cwd"@, job.cwd],
        seq!["priority"@, text::signed_decimal(job.priority as int)],
        seq!["gpus"@, gpu_count_cell(job.gpus)],
        seq![
            "assigned gpus"@,
            if shows_assigned(job) {
                gpu_list(job.assigned_gpus)
            } else {
                "-"@
            },
        ],
        seq!["exit code"@, exit_cell(job.exit_code)],
        seq!["log"@, job.log_path],
        seq!["enqueued"@, enqueued],
        seq!["started"@, time_cell(started)],
        seq!["finished"@, time_cell(finished)],
    ]
}

/// Whether a table shows the details of a job, kept to a width if there is one
/// by folding the values.
pub open spec fn is_details(
    t: TableView,
    rows: Seq<Seq<Seq<char>>>,
    width: Option<usize>,
) -> bool {
    &&& t.has_default_look()
    &&& t.header == seq!["key"@, "value"@]
    &&& t.rows == rows
    &&& t.right_aligned == Seq::<usize>::empty()
    &&& t.max_width == width
    &&& t.flex_column == (if width is Some {
        Some(1usize)
    } else {
        None
    })
    &&& t.wrap == (width is Some)
}

fn detail_row(key: &str, value: String) -> (r: Vec<String>)
    ensures
        r.deep_view() == seq![key@, value@],
{
    let mut row: Vec<String> = Vec::new();
    row.push(key.to_owned());
    row.push(value);
    assert(row.deep_view() =~= seq![key@, value@]);
    row
}

fn time_text(time: Option<String>) -> (r: String)
    ensures
        r@ == time_cell(time.deep_view()),
{
    match time {
        Some(time) => time,
        None => dash(),
    }
}

/// The table of the details of a job. Every field is always shown: missing
/// values render as "-", except an absent label, which is left blank. With a
/// `width`, the values are wrapped onto multiple lines so that the table keeps
/// to it.
pub fn details_table(
    job: &Job,
    enqueued: String,
    started: Option<String>,
    finished: Option<String>,
    width: Option<usize>,
) -> (t: Table)
    ensures
        is_details(
            t@,
            detail_rows(job@, enqueued@, started.deep_view(), finished.deep_view()),
            width,
        ),
        t@.complete(),
{
    let assigned = if job.state == JobState::Running && job.assigned_gpus.len() > 0 {
        format_gpu_list(&job.assigned_gpus)
    } else {
        dash()
    };
    let mut rows: Vec<Vec<String>> = Vec::new();
    rows.push(detail_row("id", text::u32_text(job.id)));
    rows.push(detail_row("state", job.state.as_str().to_owned()));
    rows.push(detail_row("label", label_text(&job.label)));
    rows.push(detail_row("command", job.command_line()));
    rows.push(detail_row("cwd", job.cwd.clone()));
    rows.push(detail_row("priority", text::i32_text(job.priority)));
    rows.push(detail_row("gpus", gpu_count_text(job.gpus)));
    rows.push(detail_row("assigned gpus", assigned));
    rows.push(detail_row("exit code", exit_text(job.exit_code)));
    rows.push(detail_row("log", job.log_path.clone()));
    rows.push(detail_row("enqueued", enqueued));
    rows.push(detail_row("started", time_text(started)));
    rows.push(detail_row("finished", time_text(finished)));
    let ghost goal = detail_rows(job@, enqueued@, started.deep_view(), finished.deep_view());
    assert(rows.deep_view() =~= goal);
    let mut table = Table::new();
    let _ = table.set_header(vec!["key", "value"]);
    assert(table@.header =~= seq!["key"@, "value"@]);
    let _ = table.add_rows(rows);
    assert(table@.rows =~= goal);
    if let Some(width) = width {
        let _ = table.wrap_to_width(width, 1);
    }
    table
}

/// Whether all the times of a job can be shown.
pub open spec fn times_displayable(job: JobView) -> bool {
    &&& job.enqueued_at.displayable()
    &&& job.started_at is Some ==> job.started_at->0.displayable()
    &&& job.finished_at is Some ==> job.finished_at->0.displayable()
}

/// Whether a text shows a time, where either may be absent.
pub open spec fn shows_time(time: Option<Timestamp>, shown: Option<Seq<char>>) -> bool {
    match (time, shown) {
        (Some(time), Some(text)) => clock::shows(time, text),
        (None, None) => true,
        _ => false,
    }
}

/// Whether all the times of a job can be shown.
pub fn can_show_times(job: &Job) -> (r: bool)
    ensures
        r == times_displayable(job@),
{
    let started = match job.started_at {
        Some(t) => t.is_displayable(),
        None => true,
    };
    let finished = match job.finished_at {
        Some(t) => t.is_displayable(),
        None => true,
    };
    job.enqueued_at.is_displayable() && started && finished
}

/// The table of the details of a job, with its times in the machine's time
/// zone.
pub fn job_details(job: &Job, width: Option<usize>) -> (t: Table)
    requires
        times_displayable(job@),
    ensures
        t@.complete(),
        exists|enqueued: Seq<char>, started: Option<Seq<char>>, finished: Option<Seq<char>>|
            is_details(t@, #[trigger] detail_rows(job@, enqueued, started, finished), width)
                && clock::shows(job@.enqueued_at, enqueued) && shows_time(job@.started_at, started)
                && shows_time(job@.finished_at, finished),
{
    let enqueued = fmt_local(job.enqueued_at);
    let started: Option<String> = match job.started_at {
        Some(t) => Some(fmt_local(t)),
        None => None,
    };
    let finished: Option<String> = match job.finished_at {
        Some(t) => Some(fmt_local(t)),
        None => None,
    };
    let ghost rows = detail_rows(job@, enqueued@, started.deep_view(), finished.deep_view());
    let t = details_table(job, enqueued, started, finished, width);
    assert(is_details(t@, rows, width));
    t
}

/// What stands below the details of a job.
pub fn details_footer(job: &Job) -> (r: Option<&'static str>)
    ensures
        r is Some <==> job@.state is Running,
        r is Some ==> r->0@ == "(still running)"@,
{
    match job.state {
        JobState::Running => Some("(still running)"),
        _ => None,
    }
}

} // verus!
