//! Applying a patch.

use vstd::prelude::*;

use crate::text::cat5;
use crate::tools::contract;
use crate::tools::contract::{
    ChangeKind, Failure, FailureKind, FileChange, ToolCallId, ToolDefinition, ToolError, ToolResult,
};
use crate::tools::files::FileSet;
use crate::tools::patch;
use crate::tools::permissions::{PermissionAction, PermissionReason};

verus! {

/// The name of the tool.
pub const NAME: &'static str = "apply_patch";

/// What the model is told of the tool.
pub const DESCRIPTION: &'static str = "Apply a minimal, targeted patch to one or more files inside the current project. Preferred over write_file for editing an existing file. The patch must use `*** Begin Patch` / `*** Update File:` / `*** Add File:` / `*** Delete File:` / `*** End Patch` sections with ' ', '-', and '+' prefixed lines. Fails safely if the file no longer matches the expected context; read the file again and retry in that case.";

/// The JSON schema of its arguments.
pub const SCHEMA: &'static str = "{\"type\":\"object\",\"properties\":{\"patch\":{\"type\":\"string\"}},\"required\":[\"patch\"],\"additionalProperties\":false}";

/// Says what the tool does and takes.
pub fn definition() -> (r: ToolDefinition)
    ensures
        r.says(NAME@, DESCRIPTION@, SCHEMA@),
{
    ToolDefinition::new(NAME, DESCRIPTION, SCHEMA)
}

/// What has to be permitted before a patch is applied.
pub fn requested_action(root: &str) -> (r: PermissionAction)
    ensures
        r matches PermissionAction::Write { path: p } && p@ == root@,
{
    PermissionAction::Write { path: root.to_owned() }
}

/// What is told of a list of changes.
pub open spec fn told(list: Seq<(Seq<char>, ChangeKind)>) -> Seq<char>
    decreases list.len(),
{
    if list.len() == 0 {
        "Applied patch:\n"@
    } else {
        let c = list.last();
        told(list.drop_last()) + ("  "@ + c.1.name() + " "@ + c.0 + "\n"@)
    }
}

/// Tells a list of changes.
pub fn describe(list: &Vec<FileChange>) -> (r: String)
    ensures
        r@ == told(contract::reported(list@)),
{
    let ghost all = contract::reported(list@);
    let mut out: String = "Applied patch:\n".to_owned();
    let mut i: usize = 0;
    assert(all.take(0) =~= Seq::empty());
    while i < list.len()
        invariant
            i <= list@.len(),
            all == contract::reported(list@),
            out@ == told(all.take(i as int)),
        decreases list@.len() - i,
    {
        proof {
            assert(all[i as int] == (list@[i as int].path@, list@[i as int].kind));
            assert(all.take(i + 1).drop_last() =~= all.take(i as int));
            assert(all.take(i + 1).last() == all[i as int]);
        }
        let line: String = cat5("  ", list[i].kind.label(), " ", list[i].path.as_str(), "\n");
        out.append(line.as_str());
        i = i + 1;
    }
    assert(all.take(i as int) =~= all);
    out
}

/// Applies a patch: the permission to write, then the patch.
pub fn run_patch(
    all: &mut FileSet,
    call_id: ToolCallId,
    text: &str,
    permission: Result<(), PermissionReason>,
) -> (r: Result<ToolResult, ToolError>)
    ensures
        final(all).workspace == old(all).workspace,
        old(all).wf() ==> final(all).wf(),
        match permission {
            Err(reason) => *final(all) == *old(all) && (r matches Err(f) && f@ == (Failure {
                kind: FailureKind::PermissionDenied,
                text: reason.0@,
            })),
            Ok(_) => match patch::parsed(text@) {
                Err(e) => *final(all) == *old(all) && (r matches Err(f) && f@ == e),
                Ok(ops) => {
                    let p = patch::performed(old(all).workspace@, old(all)@, ops);
                    &&& final(all)@ == p.files
                    &&& match p.failure {
                        Some(e) => r matches Err(f) && f@ == e,
                        None => r matches Ok(t) && t.reports(
                            call_id,
                            told(patch::changes(ops)),
                            patch::changes(ops),
                        ),
                    }
                },
            },
        },
{
    if let Err(reason) = permission {
        return Err(ToolError::PermissionDenied(reason.0));
    }
    match patch::apply_patch(all, text) {
        Ok(changes) => {
            let content: String = describe(&changes);
            Ok(ToolResult::report(call_id, content, changes))
        },
        Err(e) => Err(e),
    }
}

/// Every change of a patch is told on a line of its own, in their order.
pub proof fn law_every_change_is_told(list: Seq<(Seq<char>, ChangeKind)>, p: Seq<char>)
    ensures
        told(Seq::empty()) == "Applied patch:\n"@,
        told(list.push((p, ChangeKind::Created))) == told(list) + "  "@ + "Created"@ + " "@ + p
            + "\n"@,
        told(list.push((p, ChangeKind::Modified))) == told(list) + "  "@ + "Modified"@ + " "@ + p
            + "\n"@,
        told(list.push((p, ChangeKind::Deleted))) == told(list) + "  "@ + "Deleted"@ + " "@ + p
            + "\n"@,
{
    assert(list.push((p, ChangeKind::Created)).drop_last() =~= list);
    assert(list.push((p, ChangeKind::Modified)).drop_last() =~= list);
    assert(list.push((p, ChangeKind::Deleted)).drop_last() =~= list);
}

} // verus!
