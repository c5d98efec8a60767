//! Creating or replacing a text file.

use vstd::prelude::*;

use crate::text;
use crate::text_laws;
use crate::text::{cat5, lines, number};
use crate::tools::contract;
use crate::tools::contract::{
    is_a_directory, ChangeKind, Failure, FailureKind, FileChange, ToolCallId, ToolDefinition,
    ToolError, ToolResult,
};
use crate::tools::files;
use crate::tools::files::FileSet;
use crate::tools::path;
use crate::tools::path::{resolve_workspace_path, Workspace};
use crate::tools::permissions::{PermissionAction, PermissionReason};

verus! {

/// The name of the tool.
pub const NAME: &'static str = "write_file";

/// What the model is told of the tool.
pub const DESCRIPTION: &'static str = "Create a new text file or fully replace an existing file's content inside the current project. Prefer apply_patch for targeted edits to an existing file; use write_file for new files or intentional full replacement.";

/// The JSON schema of its arguments.
pub const SCHEMA: &'static str = "{\"type\":\"object\",\"properties\":{\"path\":{\"type\":\"string\",\"description\":\"Project-relative file path\"},\"content\":{\"type\":\"string\"}},\"required\":[\"path\",\"content\"],\"additionalProperties\":false}";

/// Says what the tool does and takes.
pub fn definition() -> (r: ToolDefinition)
    ensures
        r.says(NAME@, DESCRIPTION@, SCHEMA@),
{
    ToolDefinition::new(NAME, DESCRIPTION, SCHEMA)
}

/// The arguments of the tool.
#[derive(Debug, PartialEq, Eq)]
pub struct WriteRequest {
    pub path: String,
    pub content: String,
}

/// What has to be permitted before a file is written.
pub fn requested_action(workspace: &Workspace, request: &WriteRequest) -> (r: Result<
    PermissionAction,
    ToolError,
>)
    ensures
        match path::resolution(workspace@, request.path@) {
            Ok(target) => r matches Ok(a) && (a matches PermissionAction::Write { path: p }
                && p@ == target),
            Err(e) => r matches Err(f) && f@ == e,
        },
{
    match resolve_workspace_path(workspace, request.path.as_str()) {
        Ok(target) => Ok(PermissionAction::Write { path: target }),
        Err(e) => Err(e),
    }
}

/// The files after a write, or why there is none.
pub open spec fn written(
    site: path::Site,
    all: files::Contents,
    request: WriteRequest,
    permission: Result<(), PermissionReason>,
) -> Result<files::Contents, Failure> {
    match path::resolution(site, request.path@) {
        Err(e) => Err(e),
        Ok(target) => match permission {
            Err(reason) => Err(Failure { kind: FailureKind::PermissionDenied, text: reason.0@ }),
            Ok(_) => if files::is_directory(all, target) {
                Err(contract::wrong(request.path@ + " is a directory, not a file"@))
            } else {
                files::written(all, target, request.content@)
            },
        },
    }
}

/// Whether there was something at a path before.
pub open spec fn existed(site: path::Site, all: files::Contents, p: Seq<char>) -> bool {
    match path::resolution(site, p) {
        Ok(target) => files::exists_at(all, target),
        Err(_) => false,
    }
}

/// What is told of a write.
pub open spec fn told(request: WriteRequest, replaced: bool) -> Seq<char> {
    let n = text::lines_of(request.content@).len();
    (if replaced {
        "Replaced `"@
    } else {
        "Created `"@
    }) + request.path@ + "` ("@ + text::decimal(n) + " lines)."@
}

/// Writes a file: its path, then the permission to write there, then the content. Where it fails, no
/// file is changed.
pub fn write_file(
    all: &mut FileSet,
    call_id: ToolCallId,
    request: &WriteRequest,
    permission: Result<(), PermissionReason>,
) -> (r: Result<ToolResult, ToolError>)
    ensures
        final(all).workspace == old(all).workspace,
        old(all).wf() ==> final(all).wf(),
        match written(old(all).workspace@, old(all)@, *request, permission) {
            Err(e) => *final(all) == *old(all) && (r matches Err(f) && f@ == e),
            Ok(after) => {
                let replaced = existed(old(all).workspace@, old(all)@, request.path@);
                &&& final(all)@ == after
                &&& r matches Ok(t)
                &&& t.reports(
                    call_id,
                    told(*request, replaced),
                    seq![
                        (
                            request.path@,
                            if replaced {
                                ChangeKind::Modified
                            } else {
                                ChangeKind::Created
                            },
                        ),
                    ],
                )
            },
        },
{
    let target: String = match resolve_workspace_path(&all.workspace, request.path.as_str()) {
        Ok(t) => t,
        Err(e) => {
            return Err(e);
        },
    };
    if let Err(reason) = permission {
        return Err(ToolError::PermissionDenied(reason.0));
    }
    let replaced: bool = all.is_present(target.as_str());
    if all.holds_directory(target.as_str()) {
        return Err(is_a_directory(request.path.as_str()));
    }
    if let Err(e) = all.write(target.as_str(), request.content.as_str()) {
        return Err(e);
    }
    let every: Vec<String> = lines(request.content.as_str());
    assert(text::texts(every@).len() == every@.len());
    let n: String = number(every.len() as u64);
    let content: String = cat5(
        if replaced {
            "Replaced `"
        } else {
            "Created `"
        },
        request.path.as_str(),
        "` (",
        n.as_str(),
        " lines).",
    );
    let kind: ChangeKind = if replaced {
        ChangeKind::Modified
    } else {
        ChangeKind::Created
    };
    let mut changes: Vec<FileChange> = Vec::new();
    changes.push(FileChange { path: request.path.clone(), kind });
    assert(contract::reported(changes@) =~= seq![(request.path@, kind)]);
    Ok(ToolResult::report(call_id, content, changes))
}

/// A write puts the content where the path leads, which lies in the workspace, and changes no other
/// file.
pub proof fn law_a_write_changes_its_file_alone(
    site: path::Site,
    all: files::Contents,
    request: WriteRequest,
    permission: Result<(), PermissionReason>,
    target: Seq<char>,
    other: Seq<char>,
)
    requires
        path::resolution(site, request.path@) == Ok::<Seq<char>, Failure>(target),
        other != target,
    ensures
        path::is_inside(site.canonical, target),
        written(site, all, request, permission) matches Ok(after) ==> {
            &&& permission is Ok
            &&& files::content(after, target) == Some(request.content@)
            &&& files::at(after, other) == files::at(all, other)
        },
{
    files::law_reading_gives_back_what_was_written(all, target, request.content@, other);
}

/// A write tells whether the file was there before, its path, and how many lines it has now.
pub proof fn law_a_write_tells_its_lines(request: WriteRequest, lines_of: Seq<Seq<char>>)
    requires
        text_laws::are_lines(lines_of),
        request.content@ == text_laws::ended(lines_of, seq!['\n']),
    ensures
        told(request, true) == "Replaced `"@ + request.path@ + "` ("@ + text::decimal(
            lines_of.len(),
        ) + " lines)."@,
        told(request, false) == "Created `"@ + request.path@ + "` ("@ + text::decimal(
            lines_of.len(),
        ) + " lines)."@,
{
    text_laws::law_lines_are_what_stands_between_their_endings(lines_of, seq!['x'], seq!['\n']);
}

} // verus!
