//! Running a development command.

use vstd::prelude::*;

use crate::text;
use crate::text::{cat2, cat3, cat4, number, signed_number};
use crate::tools::contract;
use crate::tools::contract::{
    Failure, ToolCallId, ToolDefinition, ToolError, ToolMetadata, ToolOutput, ToolResult, ToolStatus,
};
use crate::tools::path;
use crate::tools::path::{resolve_workspace_path, Workspace};
use crate::tools::permissions;
use crate::tools::permissions::{classify_command_risk, PermissionAction, PermissionReason};
use crate::tools::process::{CommandRequest, ProcessError, ProcessOutcome, ProcessResult};

verus! {

/// How many seconds a command may run unless something else is asked for.
pub const DEFAULT_TIMEOUT_SECONDS: u64 = 120;

/// How many seconds a command may run at most.
pub const MAX_TIMEOUT_SECONDS: u64 = 1800;

/// The name of the tool.
pub const NAME: &'static str = "run_command";

/// What the model is told of the tool.
pub const DESCRIPTION: &'static str = "Run a development command (build, test, lint, format, or similar) inside the current project. Prefer program+args over shell=true. The working directory stays inside the project; commands may require user confirmation or be denied depending on their assessed risk.";

/// The JSON schema of its arguments.
pub const SCHEMA: &'static str = "{\"type\":\"object\",\"properties\":{\"program\":{\"type\":\"string\"},\"args\":{\"type\":\"array\",\"items\":{\"type\":\"string\"}},\"cwd\":{\"type\":\"string\",\"description\":\"Project-relative working directory, default \\\".\\\"\"},\"shell\":{\"type\":\"boolean\",\"description\":\"Interpret program as a shell command line\"},\"timeout_seconds\":{\"type\":\"integer\",\"minimum\":1,\"maximum\":1800}},\"required\":[\"program\"],\"additionalProperties\":false}";

/// Says what the tool does and takes.
pub fn definition() -> (r: ToolDefinition)
    ensures
        r.says(NAME@, DESCRIPTION@, SCHEMA@),
{
    ToolDefinition::new(NAME, DESCRIPTION, SCHEMA)
}

/// The arguments of the tool.
#[derive(Debug, PartialEq, Eq)]
pub struct RunRequest {
    pub program: String,
    pub args: Vec<String>,
    pub cwd: String,
    pub shell: bool,
    pub timeout_seconds: Option<u64>,
}

impl RunRequest {
    /// A program without arguments in the project's directory, where nothing else is said.
    pub fn new(program: &str) -> (r: RunRequest)
        ensures
            r.program@ == program@,
            r.args@.len() == 0,
            r.cwd@ == "."@,
            !r.shell,
            r.timeout_seconds is None,
    {
        RunRequest {
            program: program.to_owned(),
            args: Vec::new(),
            cwd: ".".to_owned(),
            shell: false,
            timeout_seconds: None,
        }
    }
}

/// How many seconds a command may run.
pub open spec fn timeout(request: RunRequest) -> u64 {
    let asked = match request.timeout_seconds {
        Some(n) => n,
        None => DEFAULT_TIMEOUT_SECONDS,
    };
    if asked < MAX_TIMEOUT_SECONDS {
        asked
    } else {
        MAX_TIMEOUT_SECONDS
    }
}

/// Gives how many seconds a command may run.
pub fn timeout_of(request: &RunRequest) -> (r: u64)
    ensures
        r == timeout(*request),
        r <= MAX_TIMEOUT_SECONDS,
{
    let asked: u64 = match request.timeout_seconds {
        Some(n) => n,
        None => DEFAULT_TIMEOUT_SECONDS,
    };
    if asked < MAX_TIMEOUT_SECONDS {
        asked
    } else {
        MAX_TIMEOUT_SECONDS
    }
}

/// Where a command runs, or why it does not.
pub open spec fn place(site: path::Site, request: RunRequest, is_dir: bool) -> Result<
    Seq<char>,
    Failure,
> {
    match path::resolution(site, request.cwd@) {
        Ok(p) => if is_dir {
            Ok(p)
        } else {
            Err(contract::wrong(request.cwd@ + " is not a directory"@))
        },
        Err(e) => Err(e),
    }
}

/// A command runs inside the workspace and never longer than the longest time allowed.
pub proof fn law_commands_run_in_the_workspace(
    site: path::Site,
    request: RunRequest,
    is_dir: bool,
)
    ensures
        place(site, request, is_dir) matches Ok(p) ==> is_dir && path::is_inside(site.canonical, p),
        timeout(request) <= MAX_TIMEOUT_SECONDS,
{
}

/// Copies a list of texts.
fn copy_texts(list: &Vec<String>) -> (r: Vec<String>)
    ensures
        text::texts(r@) == text::texts(list@),
{
    let ghost all = text::texts(list@);
    let mut out: Vec<String> = Vec::new();
    let mut i: usize = 0;
    while i < list.len()
        invariant
            i <= list@.len(),
            all == text::texts(list@),
            text::texts(out@) =~= all.take(i as int),
        decreases list@.len() - i,
    {
        let ghost before = text::texts(out@);
        out.push(list[i].clone());
        assert(text::texts(out@) =~= before.push(all[i as int]));
        i = i + 1;
    }
    assert(all.take(i as int) =~= all);
    out
}

/// What has to be permitted before a command runs: the command with the risk that it is judged to
/// be. `is_dir` says whether its working directory is one.
pub fn requested_action(workspace: &Workspace, request: &RunRequest, is_dir: bool) -> (r: Result<
    PermissionAction,
    ToolError,
>)
    ensures
        match place(workspace@, *request, is_dir) {
            Ok(p) => {
                &&& r matches Ok(a)
                &&& a matches PermissionAction::Command { program, args, cwd, risk }
                &&& program@ == request.program@
                &&& text::texts(args@) == text::texts(request.args@)
                &&& cwd@ == p
                &&& risk == permissions::risk_of(
                    request.program@,
                    text::texts(request.args@),
                    request.shell,
                )
            },
            Err(e) => r matches Err(f) && f@ == e,
        },
{
    let cwd: String = match resolve_workspace_path(workspace, request.cwd.as_str()) {
        Ok(p) => p,
        Err(e) => {
            return Err(e);
        },
    };
    if !is_dir {
        return Err(
            ToolError::InvalidArguments(cat2(request.cwd.as_str(), " is not a directory")),
        );
    }
    let risk = classify_command_risk(request.program.as_str(), &request.args, request.shell);
    Ok(
        PermissionAction::Command {
            program: request.program.clone(),
            args: copy_texts(&request.args),
            cwd,
            risk,
        },
    )
}

/// What to do with a command after it was judged.
#[derive(Debug, PartialEq, Eq)]
pub enum Next {
    /// Run it.
    Run(CommandRequest),
    /// Answer at once.
    Answer(ToolResult),
}

/// Goes on with a command that may or may not run. A refusal is an answer, not an error.
pub fn proceed(
    workspace: &Workspace,
    call_id: ToolCallId,
    request: &RunRequest,
    is_dir: bool,
    permission: Result<(), PermissionReason>,
) -> (r: Result<Next, ToolError>)
    ensures
        match place(workspace@, *request, is_dir) {
            Err(e) => r matches Err(f) && f@ == e,
            Ok(p) => match permission {
                Err(reason) => {
                    &&& r matches Ok(Next::Answer(t))
                    &&& t.is_plain(call_id, ToolStatus::Denied, reason.0@, false)
                },
                Ok(_) => {
                    &&& r matches Ok(Next::Run(c))
                    &&& c.program@ == request.program@
                    &&& text::texts(c.args@) == text::texts(request.args@)
                    &&& c.cwd@ == p
                    &&& c.shell == request.shell
                    &&& c.timeout_ms == timeout(*request) * 1000
                },
            },
        },
{
    let cwd: String = match resolve_workspace_path(workspace, request.cwd.as_str()) {
        Ok(p) => p,
        Err(e) => {
            return Err(e);
        },
    };
    if !is_dir {
        return Err(
            ToolError::InvalidArguments(cat2(request.cwd.as_str(), " is not a directory")),
        );
    }
    if let Err(reason) = permission {
        return Ok(Next::Answer(ToolResult::denied(call_id, reason.0)));
    }
    Ok(
        Next::Run(
            CommandRequest {
                program: request.program.clone(),
                args: copy_texts(&request.args),
                cwd,
                shell: request.shell,
                timeout_ms: timeout_of(request) * 1000,
            },
        ),
    )
}

/// What is shown of a stream, under its name.
pub open spec fn stream_text(name: Seq<char>, content: Seq<char>) -> Seq<char> {
    if content.len() == 0 {
        Seq::empty()
    } else {
        "--- "@ + name + " ---\n"@ + content + "\n"@
    }
}

/// What is shown of a process that ran to its end.
pub open spec fn process_text(process: ProcessResult) -> Seq<char> {
    "Process exited with code "@ + (match process.exit_code {
        Some(code) => text::signed(code as int),
        None => "unknown"@,
    }) + ".\n"@ + stream_text("stdout"@, process.stdout@) + stream_text("stderr"@, process.stderr@)
}

/// Shows a stream, under its name.
fn show_stream(name: &str, content: &str) -> (r: String)
    ensures
        r@ == stream_text(name@, content@),
{
    if content.is_empty() {
        let none: String = String::new();
        assert(none@ =~= Seq::empty());
        none
    } else {
        text::cat5("--- ", name, " ---\n", content, "\n")
    }
}

/// Whether an answer is that of a process that ran to its end.
pub open spec fn is_process_answer(
    t: ToolResult,
    call_id: ToolCallId,
    process: ProcessResult,
) -> bool {
    let truncated = process.stdout_truncated || process.stderr_truncated;
    &&& t.call_id == call_id
    &&& t.status == ToolStatus::Success
    &&& t.output.content@ == process_text(process)
    &&& t.output.truncated == truncated
    &&& t.metadata.duration_ms == Some(process.duration_ms)
    &&& t.metadata.affected_files@.len() == 0
    &&& t.metadata.exit_code == process.exit_code
    &&& t.metadata.truncated == truncated
}

/// Answers a command that was run: it could not be started, it was cancelled, it ran too long, or
/// it ran to its end. A process that fails is still an answer.
pub fn conclude(
    call_id: ToolCallId,
    request: &RunRequest,
    outcome: Result<ProcessResult, ProcessError>,
) -> (r: ToolResult)
    ensures
        match outcome {
            Err(ProcessError::SpawnFailed(message)) => r.is_plain(
                call_id,
                ToolStatus::Failed,
                "could not run `"@ + request.program@ + "`: "@ + message@,
                false,
            ),
            Ok(process) => match process.outcome {
                ProcessOutcome::Cancelled => r.is_plain(
                    call_id,
                    ToolStatus::Cancelled,
                    "The operation was cancelled."@,
                    false,
                ),
                ProcessOutcome::TimedOut => r.is_plain(
                    call_id,
                    ToolStatus::Failed,
                    "command timed out after "@ + text::decimal(timeout(*request) as nat)
                        + " seconds"@,
                    false,
                ),
                ProcessOutcome::Completed => is_process_answer(r, call_id, process),
            },
        },
{
    match outcome {
        Err(ProcessError::SpawnFailed(message)) => ToolResult::failed(
            call_id,
            cat4("could not run `", request.program.as_str(), "`: ", message.as_str()),
        ),
        Ok(process) => match process.outcome {
            ProcessOutcome::Cancelled => ToolResult::cancelled(call_id),
            ProcessOutcome::TimedOut => {
                let n: String = number(timeout_of(request));
                ToolResult::failed(
                    call_id,
                    cat3("command timed out after ", n.as_str(), " seconds"),
                )
            },
            ProcessOutcome::Completed => {
                let code: String = match process.exit_code {
                    Some(c) => signed_number(c),
                    None => "unknown".to_owned(),
                };
                let out: String = show_stream("stdout", process.stdout.as_str());
                let err: String = show_stream("stderr", process.stderr.as_str());
                let content: String = text::cat5(
                    "Process exited with code ",
                    code.as_str(),
                    ".\n",
                    out.as_str(),
                    err.as_str(),
                );
                let truncated: bool = process.stdout_truncated || process.stderr_truncated;
                ToolResult {
                    call_id,
                    status: ToolStatus::Success,
                    output: ToolOutput { content, truncated },
                    metadata: ToolMetadata {
                        duration_ms: Some(process.duration_ms),
                        affected_files: Vec::new(),
                        exit_code: process.exit_code,
                        truncated,
                    },
                }
            },
        },
    }
}

/// A command may run as many seconds as it asks for, up to half an hour, and two minutes where it asks
/// for none.
pub proof fn law_the_time_asked_for_is_given_up_to_half_an_hour(request: RunRequest, n: u64)
    ensures
        request.timeout_seconds == Some(n) && n <= 1800 ==> timeout(request) == n,
        request.timeout_seconds == Some(n) && n > 1800 ==> timeout(request) == 1800,
        request.timeout_seconds is None ==> timeout(request) == 120,
{
}

} // verus!
