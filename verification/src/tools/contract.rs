//! Tool calls and their results.

use vstd::prelude::*;

use crate::text::cat2;

verus! {

/// Stable identifier for a built-in tool, used as the registry key and in provider schemas.
#[derive(Clone, Debug, PartialEq, Eq, Hash)]
pub struct ToolName {
    value: String,
}

impl View for ToolName {
    type V = Seq<char>;

    closed spec fn view(&self) -> Seq<char> {
        self.value@
    }
}

impl ToolName {
    /// Creates a tool name from its stable string form.
    #[must_use]
    pub fn new(value: &str) -> (r: ToolName)
        ensures
            r@ == value@,
    {
        ToolName { value: value.to_owned() }
    }

    /// Returns the stable tool name.
    #[must_use]
    pub fn as_str(&self) -> (r: &str)
        ensures
            r@ == self@,
    {
        self.value.as_str()
    }
}

/// Correlation identifier shared by a provider tool call, its execution, and its result.
#[derive(Debug, PartialEq, Eq, Hash)]
pub struct ToolCallId {
    value: String,
}

impl View for ToolCallId {
    type V = Seq<char>;

    closed spec fn view(&self) -> Seq<char> {
        self.value@
    }
}

impl ToolCallId {
    /// Wraps an existing correlation identifier.
    #[must_use]
    pub fn new(value: &str) -> (r: ToolCallId)
        ensures
            r@ == value@,
    {
        ToolCallId { value: value.to_owned() }
    }

    /// Returns the correlation identifier.
    #[must_use]
    pub fn as_str(&self) -> (r: &str)
        ensures
            r@ == self@,
    {
        self.value.as_str()
    }
}

impl Clone for ToolCallId {
    fn clone(&self) -> (r: ToolCallId)
        ensures
            r == *self,
    {
        ToolCallId { value: self.value.clone() }
    }
}

/// Metadata a tool exposes to the model and the registry.
#[derive(Clone, Debug, PartialEq, Eq)]
pub struct ToolDefinition {
    /// Stable, model-facing tool name.
    pub name: ToolName,
    /// Concise description that teaches the model when to use, and not use, the tool.
    pub description: String,
    /// JSON schema describing accepted arguments, as JSON text.
    pub input_schema: String,
}

impl ToolDefinition {
    /// Whether a definition has a name, a description and a schema.
    pub open spec fn says(self, name: Seq<char>, description: Seq<char>, schema: Seq<char>) -> bool {
        self.name@ == name && self.description@ == description && self.input_schema@ == schema
    }

    /// Defines a tool.
    pub fn new(name: &str, description: &str, schema: &str) -> (r: ToolDefinition)
        ensures
            r.says(name@, description@, schema@),
    {
        ToolDefinition {
            name: ToolName::new(name),
            description: description.to_owned(),
            input_schema: schema.to_owned(),
        }
    }
}

/// A tool call, whatever provider it came from.
#[derive(Debug, PartialEq, Eq)]
pub struct ToolCall {
    /// Correlation identifier of the call.
    pub id: ToolCallId,
    /// Name of the requested tool.
    pub name: ToolName,
    /// Raw arguments, as JSON text.
    pub arguments: String,
}

/// Outcome of one tool execution attempt.
#[derive(Clone, Copy, Debug, PartialEq, Eq, Structural)]
pub enum ToolStatus {
    /// The tool executed; a non-zero process exit code is still `Success`.
    Success,
    /// The tool could not complete the requested action.
    Failed,
    /// Execution was cancelled before completion.
    Cancelled,
    /// The user or permission policy denied the action.
    Denied,
}

/// Human- and model-facing tool output.
#[derive(Debug, PartialEq, Eq)]
pub struct ToolOutput {
    /// Rendered content returned to the model.
    pub content: String,
    /// Whether `content` omits part of the full result.
    pub truncated: bool,
}

impl ToolOutput {
    /// Creates output that was not truncated.
    #[must_use]
    pub fn new(content: String) -> (r: ToolOutput)
        ensures
            r == (ToolOutput { content, truncated: false }),
    {
        ToolOutput { content, truncated: false }
    }

    /// Creates output explicitly marked as truncated.
    #[must_use]
    pub fn truncated(content: String) -> (r: ToolOutput)
        ensures
            r == (ToolOutput { content, truncated: true }),
    {
        ToolOutput { content, truncated: true }
    }
}

/// Kind of change a write tool applied to a file.
#[derive(Clone, Copy, Debug, PartialEq, Eq, Structural)]
pub enum ChangeKind {
    /// A new file was created.
    Created,
    /// An existing file's content changed.
    Modified,
    /// A file was removed.
    Deleted,
}

impl ChangeKind {
    /// The word for the change.
    pub open spec fn name(self) -> Seq<char> {
        match self {
            ChangeKind::Created => "Created"@,
            ChangeKind::Modified => "Modified"@,
            ChangeKind::Deleted => "Deleted"@,
        }
    }

    /// The word for the change.
    pub fn label(self) -> (r: &'static str)
        ensures
            r@ == self.name(),
    {
        match self {
            ChangeKind::Created => "Created",
            ChangeKind::Modified => "Modified",
            ChangeKind::Deleted => "Deleted",
        }
    }
}

/// Record of one file affected by a write tool, suitable for session persistence.
#[derive(Debug, PartialEq, Eq)]
pub struct FileChange {
    /// Workspace-relative path of the affected file.
    pub path: String,
    /// What kind of change occurred.
    pub kind: ChangeKind,
}

/// Changes over plain values.
pub open spec fn reported(list: Seq<FileChange>) -> Seq<(Seq<char>, ChangeKind)> {
    Seq::new(list.len(), |i: int| (list[i].path@, list[i].kind))
}

/// Small, common metadata attached to every tool result.
#[derive(Debug, PartialEq, Eq)]
pub struct ToolMetadata {
    /// Wall-clock execution duration.
    pub duration_ms: Option<u64>,
    /// Files created, modified, or deleted by this call.
    pub affected_files: Vec<FileChange>,
    /// Process exit code, when the tool ran an external process.
    pub exit_code: Option<i32>,
    /// Whether the output was truncated, as in [`ToolOutput`].
    pub truncated: bool,
}

impl ToolMetadata {
    /// Whether the metadata says nothing but whether the output was truncated.
    pub open spec fn is_plain(self, truncated: bool) -> bool {
        &&& self.duration_ms is None
        &&& self.affected_files@.len() == 0
        &&& self.exit_code is None
        &&& self.truncated == truncated
    }

    /// Metadata that says nothing but whether the output was truncated.
    pub fn plain(truncated: bool) -> (r: ToolMetadata)
        ensures
            r.is_plain(truncated),
    {
        ToolMetadata { duration_ms: None, affected_files: Vec::new(), exit_code: None, truncated }
    }
}

/// Normalized result returned from a tool execution.
#[derive(Debug, PartialEq, Eq)]
pub struct ToolResult {
    /// Correlation identifier copied from the originating call.
    pub call_id: ToolCallId,
    /// Outcome classification.
    pub status: ToolStatus,
    /// Content returned to the model.
    pub output: ToolOutput,
    /// Additional structured metadata.
    pub metadata: ToolMetadata,
}

impl ToolResult {
    /// Whether a result has a status and an output, and metadata that says nothing more.
    pub open spec fn is_plain(
        self,
        call_id: ToolCallId,
        status: ToolStatus,
        content: Seq<char>,
        truncated: bool,
    ) -> bool {
        &&& self.call_id == call_id
        &&& self.status == status
        &&& self.output.content@ == content
        &&& self.output.truncated == truncated
        &&& self.metadata.is_plain(truncated)
    }

    /// Whether a successful result names the files that were changed.
    pub open spec fn reports(
        self,
        call_id: ToolCallId,
        content: Seq<char>,
        changes: Seq<(Seq<char>, ChangeKind)>,
    ) -> bool {
        &&& self.call_id == call_id
        &&& self.status == ToolStatus::Success
        &&& self.output.content@ == content
        &&& !self.output.truncated
        &&& self.metadata.duration_ms is None
        &&& self.metadata.exit_code is None
        &&& !self.metadata.truncated
        &&& reported(self.metadata.affected_files@) == changes
    }

    /// Builds a successful result that names the files that were changed.
    pub fn report(call_id: ToolCallId, content: String, changes: Vec<FileChange>) -> (r: ToolResult)
        ensures
            r.reports(call_id, content@, reported(changes@)),
    {
        ToolResult {
            call_id,
            status: ToolStatus::Success,
            output: ToolOutput::new(content),
            metadata: ToolMetadata {
                duration_ms: None,
                affected_files: changes,
                exit_code: None,
                truncated: false,
            },
        }
    }

    /// Builds a successful result with no extra metadata.
    #[must_use]
    pub fn success(call_id: ToolCallId, output: ToolOutput) -> (r: ToolResult)
        ensures
            r.is_plain(call_id, ToolStatus::Success, output.content@, output.truncated),
            r.output == output,
    {
        let metadata: ToolMetadata = ToolMetadata::plain(output.truncated);
        ToolResult { call_id, status: ToolStatus::Success, output, metadata }
    }

    /// Builds a failed result carrying a model-actionable explanation.
    #[must_use]
    pub fn failed(call_id: ToolCallId, message: String) -> (r: ToolResult)
        ensures
            r.is_plain(call_id, ToolStatus::Failed, message@, false),
    {
        ToolResult {
            call_id,
            status: ToolStatus::Failed,
            output: ToolOutput::new(message),
            metadata: ToolMetadata::plain(false),
        }
    }

    /// Builds a result for a call cancelled before or during execution.
    #[must_use]
    pub fn cancelled(call_id: ToolCallId) -> (r: ToolResult)
        ensures
            r.is_plain(
                call_id,
                ToolStatus::Cancelled,
                "The operation was cancelled."@,
                false,
            ),
    {
        ToolResult {
            call_id,
            status: ToolStatus::Cancelled,
            output: ToolOutput::new("The operation was cancelled.".to_owned()),
            metadata: ToolMetadata::plain(false),
        }
    }

    /// Builds a result for a call the permission policy or user denied.
    #[must_use]
    pub fn denied(call_id: ToolCallId, reason: String) -> (r: ToolResult)
        ensures
            r.is_plain(call_id, ToolStatus::Denied, reason@, false),
    {
        ToolResult {
            call_id,
            status: ToolStatus::Denied,
            output: ToolOutput::new(reason),
            metadata: ToolMetadata::plain(false),
        }
    }
}

/// Errors that prevent a tool call from producing a normal [`ToolResult`].
#[derive(Debug, PartialEq, Eq)]
pub enum ToolError {
    /// Arguments did not parse or did not satisfy the tool's schema.
    InvalidArguments(String),
    /// A resolved path fell outside the workspace boundary.
    OutsideWorkspace(String),
    /// The requested path does not exist.
    NotFound(String),
    /// The permission policy or user denied the action.
    PermissionDenied(String),
    /// The tool cannot operate on the file's detected content type.
    UnsupportedFileType(String),
    /// An underlying filesystem or process I/O operation failed.
    Io(String),
    /// Execution was cancelled.
    Cancelled,
    /// Execution exceeded its allotted time.
    Timeout,
    /// An unexpected internal failure occurred.
    Internal(String),
}

impl Clone for ToolError {
    fn clone(&self) -> (r: ToolError)
        ensures
            r == *self,
    {
        match self {
            ToolError::InvalidArguments(m) => ToolError::InvalidArguments(m.clone()),
            ToolError::OutsideWorkspace(p) => ToolError::OutsideWorkspace(p.clone()),
            ToolError::NotFound(p) => ToolError::NotFound(p.clone()),
            ToolError::PermissionDenied(m) => ToolError::PermissionDenied(m.clone()),
            ToolError::UnsupportedFileType(m) => ToolError::UnsupportedFileType(m.clone()),
            ToolError::Io(m) => ToolError::Io(m.clone()),
            ToolError::Cancelled => ToolError::Cancelled,
            ToolError::Timeout => ToolError::Timeout,
            ToolError::Internal(m) => ToolError::Internal(m.clone()),
        }
    }
}

impl ToolError {
    /// What the error says.
    pub open spec fn text(self) -> Seq<char> {
        match self {
            ToolError::InvalidArguments(message) => "invalid arguments: "@ + message@,
            ToolError::OutsideWorkspace(path) => path@ + " is outside the workspace"@,
            ToolError::NotFound(path) => path@ + " was not found"@,
            ToolError::PermissionDenied(message) => "permission denied: "@ + message@,
            ToolError::UnsupportedFileType(message) => "unsupported file: "@ + message@,
            ToolError::Io(message) => "I/O error: "@ + message@,
            ToolError::Cancelled => "the operation was cancelled"@,
            ToolError::Timeout => "the operation timed out"@,
            ToolError::Internal(message) => "internal error: "@ + message@,
        }
    }

    /// Writes what the error says.
    pub fn message(&self) -> (r: String)
        ensures
            r@ == self.text(),
    {
        match self {
            ToolError::InvalidArguments(message) => cat2("invalid arguments: ", message.as_str()),
            ToolError::OutsideWorkspace(path) => cat2(path.as_str(), " is outside the workspace"),
            ToolError::NotFound(path) => cat2(path.as_str(), " was not found"),
            ToolError::PermissionDenied(message) => cat2("permission denied: ", message.as_str()),
            ToolError::UnsupportedFileType(message) => cat2("unsupported file: ", message.as_str()),
            ToolError::Io(message) => cat2("I/O error: ", message.as_str()),
            ToolError::Cancelled => "the operation was cancelled".to_owned(),
            ToolError::Timeout => "the operation timed out".to_owned(),
            ToolError::Internal(message) => cat2("internal error: ", message.as_str()),
        }
    }
}

/// What went wrong, without the words for it.
#[derive(Clone, Copy, Debug, PartialEq, Eq, Structural)]
pub enum FailureKind {
    InvalidArguments,
    OutsideWorkspace,
    NotFound,
    PermissionDenied,
    UnsupportedFileType,
    Io,
    Cancelled,
    Timeout,
    Internal,
}

/// An error by its kind and the text that it carries.
pub struct Failure {
    pub kind: FailureKind,
    pub text: Seq<char>,
}

impl View for ToolError {
    type V = Failure;

    open spec fn view(&self) -> Failure {
        match *self {
            ToolError::InvalidArguments(m) => Failure {
                kind: FailureKind::InvalidArguments,
                text: m@,
            },
            ToolError::OutsideWorkspace(p) => Failure {
                kind: FailureKind::OutsideWorkspace,
                text: p@,
            },
            ToolError::NotFound(p) => Failure { kind: FailureKind::NotFound, text: p@ },
            ToolError::PermissionDenied(m) => Failure {
                kind: FailureKind::PermissionDenied,
                text: m@,
            },
            ToolError::UnsupportedFileType(m) => Failure {
                kind: FailureKind::UnsupportedFileType,
                text: m@,
            },
            ToolError::Io(m) => Failure { kind: FailureKind::Io, text: m@ },
            ToolError::Cancelled => Failure { kind: FailureKind::Cancelled, text: Seq::empty() },
            ToolError::Timeout => Failure { kind: FailureKind::Timeout, text: Seq::empty() },
            ToolError::Internal(m) => Failure { kind: FailureKind::Internal, text: m@ },
        }
    }
}

/// The failure that says that the arguments are wrong, in the given words.
pub open spec fn wrong(message: Seq<char>) -> Failure {
    Failure { kind: FailureKind::InvalidArguments, text: message }
}

/// Whether an error says that the arguments are wrong, in the given words.
pub open spec fn is_invalid(e: ToolError, message: Seq<char>) -> bool {
    e matches ToolError::InvalidArguments(m) && m@ == message
}

/// A text or what went wrong.
pub open spec fn outcome(r: Result<String, ToolError>) -> Result<Seq<char>, Failure> {
    match r {
        Ok(t) => Ok(t@),
        Err(e) => Err(e@),
    }
}

/// An error that says that the arguments are wrong.
pub fn invalid(message: &str) -> (r: ToolError)
    ensures
        is_invalid(r, message@),
        r@ == wrong(message@),
{
    ToolError::InvalidArguments(message.to_owned())
}

/// Progress reported by a long-running tool while it executes.
#[derive(Debug, PartialEq, Eq)]
pub enum ToolEvent {
    /// Execution began for the given call.
    Started(ToolCallId),
    /// An incremental chunk of process or search output.
    OutputChunk {
        /// Call the chunk belongs to.
        id: ToolCallId,
        /// Chunk content.
        chunk: String,
    },
    /// Execution finished; carries the final result.
    Finished(ToolResult),
}

/// The message for a file that was expected to be a file and is a directory.
pub fn is_a_directory(path: &str) -> (r: ToolError)
    ensures
        is_invalid(r, path@ + " is a directory, not a file"@),
        r@ == wrong(path@ + " is a directory, not a file"@),
{
    ToolError::InvalidArguments(cat2(path, " is a directory, not a file"))
}

} // verus!
