//! Running processes: what is asked for, how output is kept, and how a run ends.

use vstd::prelude::*;

use crate::text;
use crate::text_laws;
use crate::text::{byte_length, cat3, decode_lossy, fit, fit_end, text_of, chars_of};
use crate::tools::redact;
use crate::tools::redact::redact_secrets;

verus! {

/// How many bytes of either output stream are kept before the middle is left out.
pub const DEFAULT_OUTPUT_LIMIT: usize = 100_000;

/// How long a process may run, in milliseconds, unless its request says otherwise.
pub const DEFAULT_TIMEOUT_MS: u64 = 120_000;

/// The environment variables with a provider's credentials, which no process inherits.
pub open spec fn credential_names() -> Seq<Seq<char>> {
    seq!["NVIDIA_API_KEY"@]
}

/// Lists the environment variables with a provider's credentials, which no process inherits.
pub fn credential_env_vars() -> (r: Vec<String>)
    ensures
        text::texts(r@) == credential_names(),
{
    let mut names: Vec<String> = Vec::new();
    names.push("NVIDIA_API_KEY".to_owned());
    assert(text::texts(names@) =~= credential_names());
    names
}

/// A request to run one process.
#[derive(Debug, PartialEq, Eq)]
pub struct CommandRequest {
    /// Executable name or path.
    pub program: String,
    /// Positional arguments.
    pub args: Vec<String>,
    /// Working directory, already known to lie inside the workspace.
    pub cwd: String,
    /// Whether `program` is a shell command line rather than an executable.
    pub shell: bool,
    /// How long the process may run before it is terminated, in milliseconds.
    pub timeout_ms: u64,
}

impl CommandRequest {
    /// Creates a request for a program with arguments and the default timeout.
    #[must_use]
    pub fn new(program: &str, args: Vec<String>, cwd: String) -> (r: CommandRequest)
        ensures
            r.program@ == program@,
            r.args == args,
            r.cwd == cwd,
            !r.shell,
            r.timeout_ms == DEFAULT_TIMEOUT_MS,
    {
        CommandRequest {
            program: program.to_owned(),
            args,
            cwd,
            shell: false,
            timeout_ms: DEFAULT_TIMEOUT_MS,
        }
    }
}

/// How a process is started.
#[derive(Debug, PartialEq, Eq)]
pub struct CommandPlan {
    /// The executable.
    pub program: String,
    /// Its arguments.
    pub args: Vec<String>,
    /// Its working directory.
    pub cwd: String,
    /// The environment variables that it does not inherit.
    pub removed_env: Vec<String>,
}

/// The executable that runs a request.
pub open spec fn executable(request: CommandRequest, windows: bool) -> Seq<char> {
    if !request.shell {
        request.program@
    } else if windows {
        "cmd"@
    } else {
        "/bin/sh"@
    }
}

/// The arguments of the executable that runs a request.
pub open spec fn arguments(request: CommandRequest, windows: bool) -> Seq<Seq<char>> {
    let own = text::texts(request.args@);
    if !request.shell {
        own
    } else if windows {
        seq!["/C"@, request.program@] + own
    } else {
        seq!["-c"@, request.program@] + own
    }
}

/// Says how a request is run: directly, or by the system's shell. Credentials are not passed on.
pub fn build_command(request: &CommandRequest, windows: bool) -> (r: CommandPlan)
    ensures
        r.program@ == executable(*request, windows),
        text::texts(r.args@) == arguments(*request, windows),
        r.cwd@ == request.cwd@,
        text::texts(r.removed_env@) == credential_names(),
{
    let ghost own = text::texts(request.args@);
    let mut args: Vec<String> = Vec::new();
    let program: String = if request.shell {
        if windows {
            args.push("/C".to_owned());
        } else {
            args.push("-c".to_owned());
        }
        args.push(request.program.clone());
        if windows {
            "cmd".to_owned()
        } else {
            "/bin/sh".to_owned()
        }
    } else {
        request.program.clone()
    };
    let ghost front = text::texts(args@);
    let mut i: usize = 0;
    assert(front + own.take(0) =~= front);
    while i < request.args.len()
        invariant
            i <= request.args@.len(),
            own == text::texts(request.args@),
            text::texts(args@) =~= front + own.take(i as int),
        decreases request.args@.len() - i,
    {
        let ghost before = text::texts(args@);
        args.push(request.args[i].clone());
        assert(text::texts(args@) =~= before.push(own[i as int]));
        i = i + 1;
    }
    assert(own.take(i as int) =~= own);
    assert(text::texts(args@) =~= arguments(*request, windows));
    CommandPlan {
        program,
        args,
        cwd: request.cwd.clone(),
        removed_env: credential_env_vars(),
    }
}

/// The stream from which output came.
#[derive(Clone, Copy, Debug, PartialEq, Eq, Structural)]
pub enum ProcessStream {
    /// Standard output.
    Stdout,
    /// Standard error.
    Stderr,
}

/// How a run ended.
#[derive(Clone, Copy, Debug, PartialEq, Eq, Structural)]
pub enum ProcessOutcome {
    /// The process ran to its end.
    Completed,
    /// The process was terminated because it ran too long.
    TimedOut,
    /// The process was terminated because the caller asked for it.
    Cancelled,
}

/// What became of a process that could be started.
#[derive(Debug, PartialEq, Eq)]
pub struct ProcessResult {
    /// Exit code, when the process ran to its end and has one.
    pub exit_code: Option<i32>,
    /// What is kept of standard output.
    pub stdout: String,
    /// What is kept of standard error.
    pub stderr: String,
    /// Whether standard output went past the limit, so that `stdout` is its beginning and its end.
    pub stdout_truncated: bool,
    /// Whether standard error went past the limit, so that `stderr` is its beginning and its end.
    pub stderr_truncated: bool,
    /// How long the run took.
    pub duration_ms: u64,
    /// How the run ended.
    pub outcome: ProcessOutcome,
}

/// Why a process could not even be started.
#[derive(Debug, PartialEq, Eq)]
pub enum ProcessError {
    /// The executable is missing, the directory is wrong, or permission was denied.
    SpawnFailed(String),
}

/// What is kept of an output stream: its beginning, its end, and whether it went past the limit.
#[verifier::ext_equal]
pub struct Kept {
    pub head: Seq<char>,
    pub tail: Seq<char>,
    pub truncated: bool,
}

/// Nothing so far.
pub open spec fn nothing() -> Kept {
    Kept { head: Seq::empty(), tail: Seq::empty(), truncated: false }
}

/// What is kept after more output. It fills the beginning up to the limit; from the first output
/// that does not fit on, the beginning stays as it is and everything goes to the end, which keeps its
/// last bytes.
pub open spec fn extended(k: Kept, limit: nat, chunk: Seq<char>) -> Kept {
    let used = text::byte_len(k.head);
    if k.truncated || used >= limit {
        Kept { head: k.head, tail: text::byte_tail(k.tail + chunk, limit), truncated: true }
    } else if text::byte_len(chunk) <= limit - used {
        Kept { head: k.head + chunk, ..k }
    } else {
        let fits = text::byte_fit(chunk, (limit - used) as nat);
        Kept {
            head: k.head + fits,
            tail: text::byte_tail(k.tail + chunk.skip(fits.len() as int), limit),
            truncated: true,
        }
    }
}

/// What is shown of what is kept.
pub open spec fn shown(k: Kept) -> Seq<char> {
    if k.truncated {
        k.head + "\n[... output truncated ...]\n"@ + k.tail
    } else {
        k.head
    }
}

/// Keeps the first and the last bytes of an output stream.
#[derive(Debug, PartialEq, Eq)]
pub struct BoundedBuffer {
    pub limit: usize,
    pub head: String,
    pub tail: String,
    pub truncated: bool,
}

impl View for BoundedBuffer {
    type V = Kept;

    open spec fn view(&self) -> Kept {
        Kept { head: self.head@, tail: self.tail@, truncated: self.truncated }
    }
}

impl BoundedBuffer {
    /// Neither part is longer than the limit.
    pub open spec fn wf(self) -> bool {
        is_bounded(self@, self.limit as nat)
    }

    /// An empty buffer.
    pub fn new(limit: usize) -> (r: BoundedBuffer)
        ensures
            r.limit == limit,
            r@ == nothing(),
            r.wf(),
    {
        let r: BoundedBuffer = BoundedBuffer {
            limit,
            head: String::new(),
            tail: String::new(),
            truncated: false,
        };
        assert(r@ =~= nothing());
        r
    }

    /// Takes more output.
    pub fn push(&mut self, chunk: &str)
        ensures
            final(self).limit == old(self).limit,
            final(self)@ == extended(old(self)@, old(self).limit as nat, chunk@),
            old(self).wf() ==> final(self).wf(),
    {
        proof {
            lemma_stays_bounded(self@, self.limit as nat, chunk@);
        }
        let used: usize = byte_length(self.head.as_str());
        if !self.truncated && used < self.limit {
            let remaining: usize = self.limit - used;
            if byte_length(chunk) <= remaining {
                self.head.append(chunk);
                return;
            }
            let fits: String = fit(chunk, remaining);
            proof {
                text::lemma_byte_fit(chunk@, remaining as nat);
            }
            self.head.append(fits.as_str());
            self.truncated = true;
            let all: Vec<char> = chars_of(chunk);
            let from: usize = chars_of(fits.as_str()).len();
            let rest: String = text_of(&all, from, all.len());
            assert(rest@ =~= chunk@.skip(fits@.len() as int));
            self.push_tail(rest.as_str());
            return;
        }
        self.truncated = true;
        self.push_tail(chunk);
    }

    /// Takes more output at the end.
    fn push_tail(&mut self, chunk: &str)
        ensures
            final(self).limit == old(self).limit,
            final(self).head == old(self).head,
            final(self).truncated == old(self).truncated,
            final(self).tail@ == text::byte_tail(old(self).tail@ + chunk@, old(self).limit as nat),
    {
        self.tail.append(chunk);
        let kept: String = fit_end(self.tail.as_str(), self.limit);
        self.tail = kept;
    }

    /// Gives what is shown, and whether the output went past the limit.
    pub fn finish(self) -> (r: (String, bool))
        ensures
            r.0@ == shown(self@),
            r.1 == self.truncated,
    {
        if self.truncated {
            (
                cat3(self.head.as_str(), "\n[... output truncated ...]\n", self.tail.as_str()),
                true,
            )
        } else {
            (self.head, false)
        }
    }
}

/// Whether neither part is longer than the limit.
pub open spec fn is_bounded(k: Kept, limit: nat) -> bool {
    text::byte_len(k.head) <= limit && text::byte_len(k.tail) <= limit
}

proof fn lemma_stays_bounded(k: Kept, limit: nat, chunk: Seq<char>)
    ensures
        is_bounded(k, limit) ==> is_bounded(extended(k, limit, chunk), limit),
{
    let used = text::byte_len(k.head);
    if k.truncated || used >= limit {
        text::lemma_byte_tail(k.tail + chunk, limit);
    } else if text::byte_len(chunk) <= limit - used {
        text::lemma_byte_len_add(k.head, chunk);
    } else {
        let fits = text::byte_fit(chunk, (limit - used) as nat);
        text::lemma_byte_fit(chunk, (limit - used) as nat);
        text::lemma_byte_len_add(k.head, fits);
        text::lemma_byte_tail(k.tail + chunk.skip(fits.len() as int), limit);
    }
}

/// What is kept of a list of outputs.
pub open spec fn kept(limit: nat, chunks: Seq<Seq<char>>) -> Kept
    decreases chunks.len(),
{
    if chunks.len() == 0 {
        nothing()
    } else {
        extended(kept(limit, chunks.drop_last()), limit, chunks.last())
    }
}

/// A list of outputs in one piece.
pub open spec fn whole(chunks: Seq<Seq<char>>) -> Seq<char>
    decreases chunks.len(),
{
    if chunks.len() == 0 {
        Seq::empty()
    } else {
        whole(chunks.drop_last()) + chunks.last()
    }
}

/// Whether some output came when what came before it already filled the limit.
pub open spec fn comes_late(limit: nat, chunks: Seq<Seq<char>>) -> bool {
    exists|n: int|
        0 <= n < chunks.len() && text::byte_len(#[trigger] whole(chunks.take(n))) >= limit
}

/// Output is shown whole exactly where it fits the limit and nothing came, not even an empty piece,
/// once the limit was filled. What is kept never takes more than twice the limit.
pub proof fn law_short_output_is_kept_whole(limit: nat, chunks: Seq<Seq<char>>)
    ensures
        is_bounded(kept(limit, chunks), limit),
        !kept(limit, chunks).truncated ==> shown(kept(limit, chunks)) == whole(chunks),
        kept(limit, chunks).truncated <==> text::byte_len(whole(chunks)) > limit || comes_late(
            limit,
            chunks,
        ),
    decreases chunks.len(),
{
    if chunks.len() > 0 {
        let some = chunks.drop_last();
        let before = kept(limit, some);
        law_short_output_is_kept_whole(limit, some);
        lemma_stays_bounded(before, limit, chunks.last());
        text::lemma_byte_len_add(whole(some), chunks.last());
        let last = some.len() as int;
        assert(chunks.take(last) =~= some);
        assert(text::byte_len(whole(chunks.take(last))) >= limit ==> comes_late(limit, chunks));
        if comes_late(limit, some) {
            let n = choose|n: int|
                0 <= n < some.len() && text::byte_len(#[trigger] whole(some.take(n))) >= limit;
            assert(chunks.take(n) =~= some.take(n));
        }
        if comes_late(limit, chunks) && !comes_late(limit, some) {
            let n = choose|n: int|
                0 <= n < chunks.len() && text::byte_len(#[trigger] whole(chunks.take(n))) >= limit;
            if n < last {
                assert(some.take(n) =~= chunks.take(n));
                assert(text::byte_len(whole(some.take(n))) >= limit);
            }
        }
    }
}

proof fn lemma_suffix_grows(t: Seq<char>, s: Seq<char>, more: Seq<char>)
    requires
        t.is_suffix_of(s),
    ensures
        (t + more).is_suffix_of(s + more),
{
    let all = s + more;
    let n = t.len() + more.len();
    assert(t =~= s.subrange(s.len() - t.len(), s.len() as int));
    assert(all.subrange(all.len() - n, all.len() as int) =~= t + more);
}

proof fn lemma_suffix_of_suffix(a: Seq<char>, b: Seq<char>, c: Seq<char>)
    requires
        a.is_suffix_of(b),
        b.is_suffix_of(c),
    ensures
        a.is_suffix_of(c),
{
    assert(b =~= c.subrange(c.len() - b.len(), c.len() as int));
    assert(a =~= b.subrange(b.len() - a.len(), b.len() as int));
    assert(c.subrange(c.len() - a.len(), c.len() as int) =~= a);
}

/// Of any output the beginning and the end are kept, each no longer than the limit.
pub proof fn law_long_output_keeps_its_ends(limit: nat, chunks: Seq<Seq<char>>)
    ensures
        kept(limit, chunks).head.is_prefix_of(whole(chunks)),
        kept(limit, chunks).tail.is_suffix_of(whole(chunks)),
        text::byte_len(kept(limit, chunks).head) <= limit,
        text::byte_len(kept(limit, chunks).tail) <= limit,
    decreases chunks.len(),
{
    law_short_output_is_kept_whole(limit, chunks);
    if chunks.len() > 0 {
        let some = chunks.drop_last();
        let k = kept(limit, some);
        let all = whole(some);
        let chunk = chunks.last();
        law_long_output_keeps_its_ends(limit, some);
        law_short_output_is_kept_whole(limit, some);
        lemma_untruncated_tail(limit, some);
        let used = text::byte_len(k.head);
        let after = whole(chunks);
        assert(after == all + chunk);
        if k.truncated || used >= limit {
            assert(k.head =~= all.subrange(0, k.head.len() as int));
            assert(after.subrange(0, k.head.len() as int) =~= k.head);
            text::lemma_byte_tail(k.tail + chunk, limit);
            lemma_suffix_grows(k.tail, all, chunk);
            lemma_suffix_of_suffix(text::byte_tail(k.tail + chunk, limit), k.tail + chunk, after);
        } else {
            assert(k.head == all);
            assert(k.tail =~= Seq::empty());
            if text::byte_len(chunk) <= limit - used {
                assert(after.subrange(0, after.len() as int) =~= after);
                assert(after.subrange(after.len() as int, after.len() as int) =~= Seq::empty());
            } else {
                let n = (limit - used) as nat;
                let fits = text::byte_fit(chunk, n);
                text::lemma_byte_fit(chunk, n);
                let rest = chunk.skip(fits.len() as int);
                assert(fits =~= chunk.subrange(0, fits.len() as int));
                assert(after.subrange(0, (all + fits).len() as int) =~= all + fits);
                assert(k.tail + rest =~= rest);
                text::lemma_byte_tail(rest, limit);
                assert(after.subrange(after.len() - rest.len(), after.len() as int) =~= rest);
                lemma_suffix_of_suffix(text::byte_tail(rest, limit), rest, after);
            }
        }
    } else {
        assert(whole(chunks).subrange(0, 0) =~= Seq::empty());
    }
}

proof fn lemma_whole_grows(chunks: Seq<Seq<char>>, n: int)
    requires
        0 <= n <= chunks.len(),
        forall|i: int| 0 <= i < chunks.len() ==> (#[trigger] chunks[i]).len() > 0,
    ensures
        text::byte_len(whole(chunks.take(n))) + (chunks.len() - n) <= text::byte_len(
            whole(chunks),
        ),
    decreases chunks.len(),
{
    if n == chunks.len() {
        assert(chunks.take(n) =~= chunks);
    } else {
        let some = chunks.drop_last();
        assert forall|i: int| 0 <= i < some.len() implies (#[trigger] some[i]).len() > 0 by {
            assert(some[i] == chunks[i]);
        }
        lemma_whole_grows(some, n);
        assert(some.take(n) =~= chunks.take(n));
        let last = chunks.last();
        assert(chunks[chunks.len() - 1].len() > 0);
        text::lemma_byte_len_add(whole(some), last);
    }
}

/// Output that comes in pieces that are not empty is shown whole exactly where it fits the limit, and
/// else as its beginning and its end with a mark between them.
pub proof fn law_output_is_cut_only_past_the_limit(limit: nat, chunks: Seq<Seq<char>>)
    requires
        forall|i: int| 0 <= i < chunks.len() ==> (#[trigger] chunks[i]).len() > 0,
    ensures
        kept(limit, chunks).truncated <==> text::byte_len(whole(chunks)) > limit,
        shown(kept(limit, chunks)) == (if text::byte_len(whole(chunks)) <= limit {
            whole(chunks)
        } else {
            kept(limit, chunks).head + "\n[... output truncated ...]\n"@ + kept(limit, chunks).tail
        }),
{
    law_short_output_is_kept_whole(limit, chunks);
    if comes_late(limit, chunks) {
        let n = choose|n: int|
            0 <= n < chunks.len() && text::byte_len(#[trigger] whole(chunks.take(n))) >= limit;
        lemma_whole_grows(chunks, n);
    }
}

proof fn lemma_untruncated_tail(limit: nat, chunks: Seq<Seq<char>>)
    ensures
        !kept(limit, chunks).truncated ==> kept(limit, chunks).tail == Seq::<char>::empty(),
    decreases chunks.len(),
{
    if chunks.len() > 0 {
        lemma_untruncated_tail(limit, chunks.drop_last());
    }
}

/// Something that happens to a running process.
#[derive(Debug, PartialEq, Eq)]
pub enum ProcessEvent {
    /// The caller asked to stop.
    Cancelled,
    /// The process ran too long.
    DeadlinePassed,
    /// Output was read. No bytes mean that the stream ended.
    Read(ProcessStream, Vec<u8>),
    /// The stream could not be read any more.
    Failed(ProcessStream),
}

/// What to do next with a running process.
#[derive(Clone, Copy, Debug, PartialEq, Eq, Structural)]
pub enum ProcessStep {
    /// Wait for the caller, the deadline, and output of the streams that are open.
    Listen { stdout: bool, stderr: bool },
    /// Terminate the process and wait for its end.
    Terminate,
    /// Read what is left of both streams and wait for the process.
    Drain,
}

/// A running process.
#[derive(Debug, PartialEq, Eq)]
pub struct ProcessRun {
    pub stdout: BoundedBuffer,
    pub stderr: BoundedBuffer,
    pub stdout_open: bool,
    pub stderr_open: bool,
    /// Why the process is to be terminated, if it is.
    pub ending: Option<ProcessOutcome>,
}

/// A running process by what is kept of its streams.
pub struct RunView {
    pub stdout: Kept,
    pub stderr: Kept,
    pub stdout_open: bool,
    pub stderr_open: bool,
    pub ending: Option<ProcessOutcome>,
}

impl View for ProcessRun {
    type V = RunView;

    open spec fn view(&self) -> RunView {
        RunView {
            stdout: self.stdout@,
            stderr: self.stderr@,
            stdout_open: self.stdout_open,
            stderr_open: self.stderr_open,
            ending: self.ending,
        }
    }
}

/// A run after output was read from a stream. Secrets are removed before it is kept.
pub open spec fn heard(run: RunView, stream: ProcessStream, output: Seq<char>) -> RunView {
    let limit = DEFAULT_OUTPUT_LIMIT as nat;
    match stream {
        ProcessStream::Stdout => RunView {
            stdout: extended(run.stdout, limit, redact::redacted(output)),
            ..run
        },
        ProcessStream::Stderr => RunView {
            stderr: extended(run.stderr, limit, redact::redacted(output)),
            ..run
        },
    }
}

/// A run after a stream ended.
pub open spec fn closed(run: RunView, stream: ProcessStream) -> RunView {
    match stream {
        ProcessStream::Stdout => RunView { stdout_open: false, ..run },
        ProcessStream::Stderr => RunView { stderr_open: false, ..run },
    }
}

/// A run after an event.
pub open spec fn happened(run: RunView, event: ProcessEvent) -> RunView {
    match event {
        ProcessEvent::Cancelled => RunView { ending: Some(ProcessOutcome::Cancelled), ..run },
        ProcessEvent::DeadlinePassed => RunView { ending: Some(ProcessOutcome::TimedOut), ..run },
        ProcessEvent::Read(stream, bytes) => if bytes@.len() == 0 {
            closed(run, stream)
        } else {
            heard(run, stream, text::lossy(bytes@))
        },
        ProcessEvent::Failed(stream) => closed(run, stream),
    }
}

/// What is told of an event to whoever watches the output.
pub open spec fn told(event: ProcessEvent) -> Option<Seq<char>> {
    match event {
        ProcessEvent::Read(_, bytes) => if bytes@.len() == 0 {
            None
        } else {
            Some(redact::redacted(text::lossy(bytes@)))
        },
        _ => None,
    }
}

/// What to do next with a run.
pub open spec fn next_step(run: RunView) -> ProcessStep {
    if run.ending is Some {
        ProcessStep::Terminate
    } else if !run.stdout_open && !run.stderr_open {
        ProcessStep::Drain
    } else {
        ProcessStep::Listen { stdout: run.stdout_open, stderr: run.stderr_open }
    }
}

impl ProcessRun {
    /// Neither stream keeps more than its limit.
    pub open spec fn wf(self) -> bool {
        &&& self.stdout.wf()
        &&& self.stderr.wf()
        &&& self.stdout.limit == DEFAULT_OUTPUT_LIMIT
        &&& self.stderr.limit == DEFAULT_OUTPUT_LIMIT
    }

    /// A process that was just started.
    pub fn start(stdout_open: bool, stderr_open: bool) -> (r: ProcessRun)
        ensures
            r.wf(),
            r@ == (RunView {
                stdout: nothing(),
                stderr: nothing(),
                stdout_open,
                stderr_open,
                ending: None,
            }),
    {
        ProcessRun {
            stdout: BoundedBuffer::new(DEFAULT_OUTPUT_LIMIT),
            stderr: BoundedBuffer::new(DEFAULT_OUTPUT_LIMIT),
            stdout_open,
            stderr_open,
            ending: None,
        }
    }

    /// Says what to do next.
    pub fn step(&self) -> (r: ProcessStep)
        ensures
            r == next_step(self@),
    {
        if self.ending.is_some() {
            ProcessStep::Terminate
        } else if !self.stdout_open && !self.stderr_open {
            ProcessStep::Drain
        } else {
            ProcessStep::Listen { stdout: self.stdout_open, stderr: self.stderr_open }
        }
    }

    /// Takes output of a stream, and gives what is told of it.
    pub fn hear(&mut self, stream: ProcessStream, output: &str) -> (r: String)
        requires
            old(self).wf(),
        ensures
            final(self).wf(),
            final(self)@ == heard(old(self)@, stream, output@),
            r@ == redact::redacted(output@),
    {
        let safe: String = redact_secrets(output);
        match stream {
            ProcessStream::Stdout => {
                self.stdout.push(safe.as_str());
            },
            ProcessStream::Stderr => {
                self.stderr.push(safe.as_str());
            },
        }
        safe
    }

    /// Notes that a stream ended.
    fn close(&mut self, stream: ProcessStream)
        requires
            old(self).wf(),
        ensures
            final(self).wf(),
            final(self)@ == closed(old(self)@, stream),
    {
        match stream {
            ProcessStream::Stdout => {
                self.stdout_open = false;
            },
            ProcessStream::Stderr => {
                self.stderr_open = false;
            },
        }
    }

    /// Takes an event, and gives what is told of it.
    pub fn on_event(&mut self, event: &ProcessEvent) -> (r: Option<String>)
        requires
            old(self).wf(),
        ensures
            final(self).wf(),
            final(self)@ == happened(old(self)@, *event),
            text::opt_text(r) == told(*event),
    {
        match event {
            ProcessEvent::Cancelled => {
                self.ending = Some(ProcessOutcome::Cancelled);
                None
            },
            ProcessEvent::DeadlinePassed => {
                self.ending = Some(ProcessOutcome::TimedOut);
                None
            },
            ProcessEvent::Read(stream, bytes) => {
                if bytes.len() == 0 {
                    self.close(*stream);
                    None
                } else {
                    let output: String = decode_lossy(bytes);
                    Some(self.hear(*stream, output.as_str()))
                }
            },
            ProcessEvent::Failed(stream) => {
                self.close(*stream);
                None
            },
        }
    }

    /// Takes what was left of a stream after it ended, where that could be read, and gives what is
    /// told of it.
    pub fn drain(&mut self, stream: ProcessStream, remaining: Option<&str>) -> (r: Option<String>)
        requires
            old(self).wf(),
        ensures
            final(self).wf(),
            match remaining {
                Some(rest) => if rest@.len() > 0 {
                    final(self)@ == heard(old(self)@, stream, rest@) && text::opt_text(r) == Some(
                        redact::redacted(rest@),
                    )
                } else {
                    *final(self) == *old(self) && r is None
                },
                None => *final(self) == *old(self) && r is None,
            },
    {
        match remaining {
            Some(rest) => {
                if chars_of(rest).len() > 0 {
                    Some(self.hear(stream, rest))
                } else {
                    None
                }
            },
            None => None,
        }
    }

    /// Ends a run. A process that was terminated has no exit code.
    pub fn finish(self, exit_code: Option<i32>, elapsed_ms: u128) -> (r: ProcessResult)
        ensures
            r.exit_code == (if self.ending is Some {
                None
            } else {
                exit_code
            }),
            r.stdout@ == shown(self.stdout@),
            r.stderr@ == shown(self.stderr@),
            r.stdout_truncated == self.stdout.truncated,
            r.stderr_truncated == self.stderr.truncated,
            r.duration_ms == (if elapsed_ms <= u64::MAX {
                elapsed_ms as int
            } else {
                u64::MAX as int
            }),
            r.outcome == (match self.ending {
                Some(o) => o,
                None => ProcessOutcome::Completed,
            }),
    {
        let (stdout, stdout_truncated) = self.stdout.finish();
        let (stderr, stderr_truncated) = self.stderr.finish();
        let duration_ms: u64 = if elapsed_ms <= u64::MAX as u128 {
            elapsed_ms as u64
        } else {
            u64::MAX
        };
        let (exit_code, outcome) = match self.ending {
            Some(o) => (None, o),
            None => (exit_code, ProcessOutcome::Completed),
        };
        ProcessResult {
            exit_code,
            stdout,
            stderr,
            stdout_truncated,
            stderr_truncated,
            duration_ms,
            outcome,
        }
    }
}

/// What is kept of an output does not depend on the pieces it came in: the longest beginning that fits
/// the limit, and of the rest the longest end that fits it.
pub proof fn law_what_is_kept_is_the_two_ends(limit: nat, chunks: Seq<Seq<char>>)
    ensures
        kept(limit, chunks).head == text::byte_fit(whole(chunks), limit),
        kept(limit, chunks).tail == text::byte_tail(
            whole(chunks).skip(text::byte_fit(whole(chunks), limit).len() as int),
            limit,
        ),
    decreases chunks.len(),
{
    let e = Seq::<char>::empty();
    if chunks.len() == 0 {
        assert(text::byte_fit(e, limit) =~= e);
        assert(e.skip(0) =~= e);
        assert(text::byte_tail(e, limit) =~= e);
    } else {
        let some = chunks.drop_last();
        let k = kept(limit, some);
        let all = whole(some);
        let chunk = chunks.last();
        law_what_is_kept_is_the_two_ends(limit, some);
        law_short_output_is_kept_whole(limit, some);
        text_laws::law_a_fitted_text_is_the_longest_that_fits(all, limit);
        text_laws::lemma_fit_of_two(all, chunk, limit);
        let head = text::byte_fit(all, limit);
        let used = text::byte_len(k.head);
        if k.truncated || used >= limit {
            assert(text::byte_len(all) >= limit) by {
                if comes_late(limit, some) {
                    let n = choose|n: int|
                        0 <= n < some.len() && text::byte_len(#[trigger] whole(some.take(n)))
                            >= limit;
                    lemma_whole_is_longer(some, n);
                }
                if used >= limit {
                    assert(all =~= head + all.skip(head.len() as int));
                    text::lemma_byte_len_add(head, all.skip(head.len() as int));
                }
            }
            let rest = all.skip(head.len() as int);
            assert((all + chunk).skip(head.len() as int) =~= rest + chunk);
            text_laws::lemma_tail_of_two(rest, chunk, limit);
        } else {
            assert(text::byte_len(all) <= limit);
            assert(head == all);
            assert(all.skip(all.len() as int) =~= e);
            assert(text::byte_tail(e, limit) =~= e);
            let room = (limit - used) as nat;
            text_laws::law_a_fitted_text_is_the_longest_that_fits(chunk, room);
            let fits = text::byte_fit(chunk, room);
            assert((all + chunk).skip((all + fits).len() as int) =~= chunk.skip(fits.len() as int));
            if text::byte_len(chunk) <= room {
                assert(chunk.skip(chunk.len() as int) =~= e);
            } else {
                assert(e + chunk.skip(fits.len() as int) =~= chunk.skip(fits.len() as int));
            }
        }
    }
}

proof fn lemma_whole_is_longer(chunks: Seq<Seq<char>>, n: int)
    requires
        0 <= n <= chunks.len(),
    ensures
        text::byte_len(whole(chunks.take(n))) <= text::byte_len(whole(chunks)),
    decreases chunks.len(),
{
    if n == chunks.len() {
        assert(chunks.take(n) =~= chunks);
    } else {
        lemma_whole_is_longer(chunks.drop_last(), n);
        assert(chunks.drop_last().take(n) =~= chunks.take(n));
        text::lemma_byte_len_add(whole(chunks.drop_last()), chunks.last());
    }
}

/// A command line goes to the system's shell as one argument, and a program gets its arguments as
/// they are.
pub proof fn law_a_program_gets_its_arguments(request: CommandRequest, windows: bool)
    ensures
        !request.shell ==> executable(request, windows) == request.program@ && arguments(
            request,
            windows,
        ) == text::texts(request.args@),
        request.shell ==> arguments(request, windows).len() == request.args@.len() + 2 && arguments(
            request,
            windows,
        )[1] == request.program@ && arguments(request, windows).skip(2) == text::texts(request.args@),
        request.shell && windows ==> executable(request, windows) == "cmd"@ && arguments(
            request,
            windows,
        )[0] == "/C"@,
        request.shell && !windows ==> executable(request, windows) == "/bin/sh"@ && arguments(
            request,
            windows,
        )[0] == "-c"@,
{
    if request.shell {
        assert(arguments(request, windows).skip(2) =~= text::texts(request.args@));
    }
}

/// A run goes on until both streams have ended, in either order, and no output that is read makes a
/// difference to that. It is terminated once it is cancelled or its time is over. What is read of one
/// stream leaves the other alone.
pub proof fn law_a_run_ends_with_both_streams(
    run: RunView,
    stream: ProcessStream,
    bytes: Vec<u8>,
    end: Vec<u8>,
)
    requires
        run.ending is None,
        run.stdout_open && run.stderr_open,
        bytes@.len() > 0,
        end@.len() == 0,
    ensures
        ({
            let out = ProcessEvent::Read(ProcessStream::Stdout, end);
            let err = ProcessEvent::Read(ProcessStream::Stderr, end);
            let more = ProcessEvent::Read(stream, bytes);
            let listening = ProcessStep::Listen { stdout: true, stderr: true };
            &&& next_step(run) == listening
            &&& next_step(happened(run, more)) == listening
            &&& next_step(happened(run, out)) == (ProcessStep::Listen {
                stdout: false,
                stderr: true,
            })
            &&& next_step(happened(run, err)) == (ProcessStep::Listen {
                stdout: true,
                stderr: false,
            })
            &&& next_step(happened(happened(run, out), err)) == ProcessStep::Drain
            &&& next_step(happened(happened(run, err), out)) == ProcessStep::Drain
            &&& next_step(
                happened(happened(run, ProcessEvent::Failed(ProcessStream::Stderr)), out),
            ) == ProcessStep::Drain
            &&& next_step(happened(run, ProcessEvent::Cancelled)) == ProcessStep::Terminate
            &&& next_step(happened(run, ProcessEvent::DeadlinePassed)) == ProcessStep::Terminate
            &&& happened(run, ProcessEvent::Cancelled).ending == Some(ProcessOutcome::Cancelled)
            &&& happened(run, ProcessEvent::DeadlinePassed).ending == Some(
                ProcessOutcome::TimedOut,
            )
            &&& stream == ProcessStream::Stdout ==> happened(run, more).stderr == run.stderr
            &&& stream == ProcessStream::Stderr ==> happened(run, more).stdout == run.stdout
            &&& happened(run, out).stdout == run.stdout && happened(run, err).stderr == run.stderr
        }),
{
}

} // verus!
