//! The messages between client and daemon, and the frames that carry them.
use vstd::prelude::*;

use super::job;
use super::job::{Job, JobView};

verus! {

/// A request sent from the client to the daemon.
#[derive(Debug)]
pub enum Request {
    Add {
        argv: Vec<String>,
        label: Option<String>,
        cwd: String,
        gpus: u32,
        /// Scheduling priority; higher runs first, ties break by id.
        priority: i32,
        /// The client's full environment at `add` time, so the job runs with the
        /// same PATH/env the user had in their shell (e.g. a pixi/venv/conda
        /// activation) rather than the daemon's frozen environment.
        env: Vec<(String, String)>,
    },
    List,
    Info { id: u32 },
    Cat { id: u32 },
    Kill { id: u32 },
    /// Kill every running job and drop every queued one.
    KillAll,
    /// Change a queued job's scheduling priority.
    SetPriority { id: u32, priority: i32 },
    /// Re-queue an existing job as a new job, re-running its command. The fresh
    /// copy is enqueued at `priority` (defaults to 0 on the client side, not the
    /// source job's priority).
    Rerun { id: u32, priority: i32 },
    /// Restart a running job in place: kill its process and re-queue the same job
    /// (same id and log file) so it runs again.
    Restart { id: u32 },
    /// Set a job's label; an empty text clears it.
    SetLabel { id: u32, text: String },
    Remove { id: u32 },
    Clear,
    /// Move every queued job to the paused state at once.
    PauseAllQueued,
    /// Move every paused job back into the queue at once.
    ResumeAllPaused,
    /// Pull a single queued job out of the queue until it is resumed.
    PauseJob { id: u32 },
    /// Put a paused job back into the queue.
    ResumeJob { id: u32 },
    Shutdown,
    /// Query the GPU devices detected by the daemon at startup.
    GetDevices,
    /// Read the current CPU-job concurrency limit.
    GetCpuLimit,
    /// Set the CPU-job concurrency limit (`None` = unlimited).
    SetCpuLimit { limit: Option<u32> },
}

/// A response sent from the daemon back to the client.
#[derive(Debug)]
pub enum Response {
    /// The request was carried out.
    Done(String),
    Error(String),
    Jobs(Vec<Job>),
    Job(Job),
    /// Path to a job's log file (resolved by the client, which reads it directly).
    LogPath(String),
}

/// What a request says, as a mathematical value.
pub enum RequestView {
    Add {
        argv: Seq<Seq<char>>,
        label: Option<Seq<char>>,
        cwd: Seq<char>,
        gpus: u32,
        priority: i32,
        env: Seq<(Seq<char>, Seq<char>)>,
    },
    List,
    Info { id: u32 },
    Cat { id: u32 },
    Kill { id: u32 },
    KillAll,
    SetPriority { id: u32, priority: i32 },
    Rerun { id: u32, priority: i32 },
    Restart { id: u32 },
    SetLabel { id: u32, text: Seq<char> },
    Remove { id: u32 },
    Clear,
    PauseAllQueued,
    ResumeAllPaused,
    PauseJob { id: u32 },
    ResumeJob { id: u32 },
    Shutdown,
    GetDevices,
    GetCpuLimit,
    SetCpuLimit { limit: Option<u32> },
}

/// What a response says, as a mathematical value.
#[verifier::ext_equal]
pub enum ResponseView {
    Done(Seq<char>),
    Error(Seq<char>),
    Jobs(Seq<JobView>),
    Job(JobView),
    LogPath(Seq<char>),
}

impl View for Request {
    type V = RequestView;

    open spec fn view(&self) -> RequestView {
        match *self {
            Request::Add { argv, label, cwd, gpus, priority, env } => RequestView::Add {
                argv: argv.deep_view(),
                label: label.deep_view(),
                cwd: cwd@,
                gpus,
                priority,
                env: env.deep_view(),
            },
            Request::List => RequestView::List,
            Request::Info { id } => RequestView::Info { id },
            Request::Cat { id } => RequestView::Cat { id },
            Request::Kill { id } => RequestView::Kill { id },
            Request::KillAll => RequestView::KillAll,
            Request::SetPriority { id, priority } => RequestView::SetPriority { id, priority },
            Request::Rerun { id, priority } => RequestView::Rerun { id, priority },
            Request::Restart { id } => RequestView::Restart { id },
            Request::SetLabel { id, text } => RequestView::SetLabel { id, text: text@ },
            Request::Remove { id } => RequestView::Remove { id },
            Request::Clear => RequestView::Clear,
            Request::PauseAllQueued => RequestView::PauseAllQueued,
            Request::ResumeAllPaused => RequestView::ResumeAllPaused,
            Request::PauseJob { id } => RequestView::PauseJob { id },
            Request::ResumeJob { id } => RequestView::ResumeJob { id },
            Request::Shutdown => RequestView::Shutdown,
            Request::GetDevices => RequestView::GetDevices,
            Request::GetCpuLimit => RequestView::GetCpuLimit,
            Request::SetCpuLimit { limit } => RequestView::SetCpuLimit { limit },
        }
    }
}

impl View for Response {
    type V = ResponseView;

    open spec fn view(&self) -> ResponseView {
        match *self {
            Response::Done(s) => ResponseView::Done(s@),
            Response::Error(s) => ResponseView::Error(s@),
            Response::Jobs(jobs) => ResponseView::Jobs(job::job_views(jobs@)),
            Response::Job(job) => ResponseView::Job(job@),
            Response::LogPath(path) => ResponseView::LogPath(path@),
        }
    }
}

// ---------------------------------------------------------------------------
// Frames
// ---------------------------------------------------------------------------

/// Largest message we are willing to read, to guard against bad framing.
pub const MAX_MSG_LEN: usize = 16 * 1024 * 1024;

/// Why a frame could not be read.
#[derive(Debug, Clone, Copy, PartialEq, Eq, Structural)]
pub enum FrameError {
    /// The length is over the cap.
    TooLarge,
    /// The bytes end before the frame does.
    Incomplete,
}

impl FrameError {
    pub open spec fn text(self) -> Seq<char> {
        match self {
            FrameError::TooLarge => "message too large"@,
            FrameError::Incomplete => "message incomplete"@,
        }
    }

    /// What is wrong, in words.
    pub fn message(&self) -> (r: &'static str)
        ensures
            r@ == self.text(),
    {
        match self {
            FrameError::TooLarge => "message too large",
            FrameError::Incomplete => "message incomplete",
        }
    }
}

/// The number that four bytes write, most significant byte first.
pub open spec fn be_value(b: Seq<u8>) -> nat {
    (b[0] * 0x100_0000 + b[1] * 0x1_0000 + b[2] * 0x100 + b[3]) as nat
}

/// The four bytes that write a number below 2^32, most significant byte first.
pub open spec fn be_bytes(n: nat) -> Seq<u8> {
    seq![
        (n / 0x100_0000 % 0x100) as u8,
        (n / 0x1_0000 % 0x100) as u8,
        (n / 0x100 % 0x100) as u8,
        (n % 0x100) as u8,
    ]
}

/// A message in its frame: the length, as far as 32 bits hold it, then the
/// bytes.
pub open spec fn framed(body: Seq<u8>) -> Seq<u8> {
    be_bytes(body.len() % 0x1_0000_0000) + body
}

/// How long a message may be that announces itself with these four bytes.
pub open spec fn announced_len(prefix: Seq<u8>) -> Result<nat, FrameError> {
    if be_value(prefix) > MAX_MSG_LEN {
        Err(FrameError::TooLarge)
    } else {
        Ok(be_value(prefix))
    }
}

/// The message in the frame that stands at the start of some bytes.
pub open spec fn unframed(bytes: Seq<u8>) -> Result<Seq<u8>, FrameError> {
    if bytes.len() < 4 {
        Err(FrameError::Incomplete)
    } else {
        match announced_len(bytes.take(4)) {
            Err(e) => Err(e),
            Ok(n) => if bytes.len() < 4 + n {
                Err(FrameError::Incomplete)
            } else {
                Ok(bytes.subrange(4, 4 + n as int))
            },
        }
    }
}

proof fn lemma_be_round_trip(n: nat)
    requires
        n < 0x1_0000_0000,
    ensures
        be_value(be_bytes(n)) == n,
        be_bytes(n).len() == 4,
{
    let b = be_bytes(n);
    assert(b[0] == n / 0x100_0000 % 0x100);
    assert(b[1] == n / 0x1_0000 % 0x100);
    assert(b[2] == n / 0x100 % 0x100);
    assert(b[3] == n % 0x100);
    assert(n == (n / 0x100_0000 % 0x100) * 0x100_0000 + (n / 0x1_0000 % 0x100) * 0x1_0000 + (n
        / 0x100 % 0x100) * 0x100 + n % 0x100) by (nonlinear_arith)
        requires
            n < 0x1_0000_0000,
    ;
}

/// Reading a frame gives back the message that was written, whatever follows
/// it, for every message up to the cap.
pub proof fn law_reading_undoes_writing(body: Seq<u8>, rest: Seq<u8>)
    requires
        body.len() <= MAX_MSG_LEN,
    ensures
        unframed(framed(body) + rest) == Ok::<Seq<u8>, FrameError>(body),
{
    lemma_be_round_trip(body.len());
    let bytes = framed(body) + rest;
    assert(bytes.take(4) == be_bytes(body.len()));
    assert(bytes.subrange(4, 4 + body.len() as int) == body);
}

/// A frame whose length is over the cap is refused, whatever follows it.
pub proof fn law_oversized_frames_are_refused(n: nat, rest: Seq<u8>)
    requires
        MAX_MSG_LEN < n < 0x1_0000_0000,
    ensures
        unframed(be_bytes(n) + rest) == Err::<Seq<u8>, FrameError>(FrameError::TooLarge),
{
    lemma_be_round_trip(n);
    assert((be_bytes(n) + rest).take(4) == be_bytes(n));
}

/// Writes an encoded message with its length in front.
pub fn write_msg(body: &[u8]) -> (r: Vec<u8>)
    ensures
        r@ == framed(body@),
{
    let n: u64 = body.len() as u64 % 0x1_0000_0000;
    let mut out: Vec<u8> = Vec::new();
    out.push((n / 0x100_0000 % 0x100) as u8);
    out.push((n / 0x1_0000 % 0x100) as u8);
    out.push((n / 0x100 % 0x100) as u8);
    out.push((n % 0x100) as u8);
    let ghost prefix = be_bytes(body@.len() % 0x1_0000_0000);
    assert(out@ == prefix);
    for i in 0..body.len()
        invariant
            out@ == prefix + body@.take(i as int),
    {
        out.push(body[i]);
        assert(body@.take(i + 1) == body@.take(i as int).push(body@[i as int]));
    }
    assert(body@.take(body@.len() as int) == body@);
    out
}

/// How many bytes the message has that announces itself with these four bytes.
pub fn message_len(prefix: &[u8; 4]) -> (r: Result<usize, FrameError>)
    ensures
        match r {
            Ok(n) => announced_len(prefix@) == Ok::<nat, FrameError>(n as nat),
            Err(e) => announced_len(prefix@) == Err::<nat, FrameError>(e),
        },
{
    let n: u64 = prefix[0] as u64 * 0x100_0000 + prefix[1] as u64 * 0x1_0000 + prefix[2] as u64
        * 0x100 + prefix[3] as u64;
    if n > MAX_MSG_LEN as u64 {
        Err(FrameError::TooLarge)
    } else {
        Ok(n as usize)
    }
}

/// Reads the encoded message in the frame at the start of `bytes`.
pub fn read_msg(bytes: &[u8]) -> (r: Result<Vec<u8>, FrameError>)
    ensures
        match r {
            Ok(body) => unframed(bytes@) == Ok::<Seq<u8>, FrameError>(body@),
            Err(e) => unframed(bytes@) == Err::<Seq<u8>, FrameError>(e),
        },
{
    if bytes.len() < 4 {
        return Err(FrameError::Incomplete);
    }
    let prefix: [u8; 4] = [bytes[0], bytes[1], bytes[2], bytes[3]];
    assert(prefix@ == bytes@.take(4));
    let n: usize = match message_len(&prefix) {
        Ok(n) => n,
        Err(e) => return Err(e),
    };
    let total: usize = bytes.len();
    if total - 4 < n {
        return Err(FrameError::Incomplete);
    }
    let mut body: Vec<u8> = Vec::new();
    for i in 0..n
        invariant
            n <= total - 4,
            total == bytes@.len(),
            body@ == bytes@.subrange(4, 4 + i),
    {
        body.push(bytes[4 + i]);
        assert(bytes@.subrange(4, 4 + i + 1) == bytes@.subrange(4, 4 + i).push(bytes@[4 + i]));
    }
    Ok(body)
}

// ---------------------------------------------------------------------------
// What frames and messages hold
// ---------------------------------------------------------------------------

/// A frame is four bytes that write the length of the message, the most significant
/// first, and then the message, byte for byte.
pub proof fn law_frames_announce_the_length(body: Seq<u8>)
    requires
        body.len() < 0x1_0000_0000,
    ensures
        framed(body).len() == 4 + body.len(),
        framed(body)[0] * 16_777_216 + framed(body)[1] * 65_536 + framed(body)[2] * 256 + framed(
            body,
        )[3] == body.len(),
        framed(body).skip(4) == body,
{
    lemma_be_round_trip(body.len());
    assert(body.len() % 0x1_0000_0000 == body.len());
    let prefix = be_bytes(body.len());
    assert(framed(body) == prefix + body);
    assert(framed(body).skip(4) =~= body);
    assert(be_value(prefix) == prefix[0] * 16_777_216 + prefix[1] * 65_536 + prefix[2] * 256
        + prefix[3]);
}

/// A frame is read by the length that its first four bytes write, the most
/// significant first: over 16 MiB it is refused, else that many bytes behind them are
/// the message, once they are there.
pub proof fn law_frames_are_read_by_the_announced_length(bytes: Seq<u8>)
    requires
        bytes.len() >= 4,
    ensures
        ({
            let n = bytes[0] * 16_777_216 + bytes[1] * 65_536 + bytes[2] * 256 + bytes[3];
            &&& n > 16_777_216 ==> unframed(bytes) == Err::<Seq<u8>, FrameError>(
                FrameError::TooLarge,
            ) && announced_len(bytes.take(4)) == Err::<nat, FrameError>(FrameError::TooLarge)
            &&& n <= 16_777_216 ==> announced_len(bytes.take(4)) == Ok::<nat, FrameError>(n as nat)
            &&& n <= 16_777_216 && bytes.len() >= 4 + n ==> unframed(bytes) == Ok::<
                Seq<u8>,
                FrameError,
            >(bytes.subrange(4, 4 + n))
            &&& n <= 16_777_216 && bytes.len() < 4 + n ==> unframed(bytes) == Err::<
                Seq<u8>,
                FrameError,
            >(FrameError::Incomplete)
        }),
{
    let head = bytes.take(4);
    assert(head[0] == bytes[0] && head[1] == bytes[1] && head[2] == bytes[2] && head[3]
        == bytes[3]);
    assert(MAX_MSG_LEN == 16_777_216);
}

/// Fewer than four bytes are no frame yet.
pub proof fn law_frames_have_four_bytes_in_front(bytes: Seq<u8>)
    requires
        bytes.len() < 4,
    ensures
        unframed(bytes) == Err::<Seq<u8>, FrameError>(FrameError::Incomplete),
{
}

/// A new job is looked at with everything that the request holds.
pub proof fn law_the_view_of_an_add_holds_every_field(
    argv: Vec<String>,
    label: Option<String>,
    cwd: String,
    gpus: u32,
    priority: i32,
    env: Vec<(String, String)>,
)
    ensures
        (Request::Add { argv, label, cwd, gpus, priority, env })@ == (RequestView::Add {
            argv: argv.deep_view(),
            label: label.deep_view(),
            cwd: cwd@,
            gpus,
            priority,
            env: env.deep_view(),
        }),
{
}

/// Two requests other than a new job that look the same ask for the same: the same
/// thing, of the same job, with the same value.
pub proof fn law_the_view_of_a_request_tells_it_apart(a: Request, b: Request)
    requires
        a@ == b@,
        !(a is Add),
    ensures
        match a {
            Request::Add { .. } => true,
            Request::SetLabel { id, text } => b matches Request::SetLabel {
                id: other,
                text: same,
            } && other == id && same@ == text@,
            _ => b == a,
        },
{
}

/// Two responses that look the same say the same.
pub proof fn law_the_view_of_a_response_tells_it_apart(a: Response)
    ensures
        match a {
            Response::Done(s) => a@ == ResponseView::Done(s@),
            Response::Error(s) => a@ == ResponseView::Error(s@),
            Response::LogPath(s) => a@ == ResponseView::LogPath(s@),
            Response::Job(j) => a@ == ResponseView::Job(j@),
            Response::Jobs(jobs) => a@ matches ResponseView::Jobs(views) && views.len()
                == jobs@.len() && forall|i: int|
                0 <= i < jobs@.len() ==> views[i] == (#[trigger] jobs@[i])@,
        },
{
}

} // verus!
