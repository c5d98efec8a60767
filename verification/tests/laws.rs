use std::hash::{Hash, Hasher};

use gocode::tools::builtin::run_command::{proceed, timeout_of, Next, RunRequest};
use gocode::tools::builtin::write_file::{write_file, WriteRequest};
use gocode::tools::contract::{ToolCallId, ToolError};
use gocode::tools::files::FileSet;
use gocode::tools::patch::apply_patch;
use gocode::tools::path::{
    normalize_lexically, parent_of, resolve_workspace_path, same_path, to_workspace_relative,
    Workspace,
};
use gocode::tools::permissions::{
    AllowedScopes, ApprovePermissionPolicy, DefaultPermissionPolicy, ManualPermissionPolicy,
    PermissionAction, PermissionDecision, PermissionPolicy, PermissionReason, PlanPermissionPolicy,
};
use gocode::tools::undo::{
    hash_content, undo_store_filename, FileSnapshot, UndoStore, UndoTransaction,
};
use gocode::updater::archive::{extract_linux_archive, judge_tar_path, EntryUse};
use gocode::updater::install::backup_path;
use gocode::updater::release::official_download_url;
use gocode::updater::UpdateError;

fn edit(id: &str, path: &str, before: Option<&str>, after: Option<&str>) -> UndoTransaction {
    UndoTransaction {
        id: id.to_string(),
        created_at_unix: 0,
        description: String::new(),
        files: vec![FileSnapshot {
            path: path.to_string(),
            before: before.map(str::to_string),
            after: after.map(str::to_string),
        }],
    }
}

#[test]
fn a_parent_keeps_the_text_before_the_last_component() {
    assert_eq!(parent_of("./a").as_deref(), Some("."));
    assert_eq!(parent_of("a//b/c").as_deref(), Some("a//b"));
    assert_eq!(parent_of("a/b/.").as_deref(), Some("a"));
    assert_eq!(parent_of(".").as_deref(), Some(""));
    assert_eq!(parent_of("/a").as_deref(), Some("/"));
    assert_eq!(parent_of(""), None);
}

#[test]
fn parents_and_equality_are_those_of_std_paths() {
    let samples = [
        "", "/", ".", "..", "a", "./a", "a/.", "a//b", "/a/b/", "a/../b", "/./a", "././a", "a/./b",
        "//a", "/..", "../a", "a/b//.", "./", "/.", "a//", "./..",
    ];
    for a in samples {
        let parent = std::path::Path::new(a).parent();
        assert_eq!(parent_of(a).as_deref(), parent.and_then(|p| p.to_str()), "parent of {a:?}");
        for b in samples {
            assert_eq!(
                same_path(a, b),
                std::path::Path::new(a) == std::path::Path::new(b),
                "{a:?} against {b:?}"
            );
        }
    }
}

#[test]
fn a_backup_stands_beside_what_it_backs_up() {
    assert_eq!(backup_path("a//b.exe"), "a//b.previous");
    assert_eq!(backup_path("./gocode"), "./gocode.previous");
    assert_eq!(backup_path("/opt/gocode/gocode.exe"), "/opt/gocode/gocode.previous");
}

#[test]
fn normalizing_twice_changes_nothing() {
    for path in ["/a/./b/../c", "../x/./y", "a//b", "/..", ".", "a/b/../../.."] {
        let once = normalize_lexically(path);
        assert_eq!(normalize_lexically(&once), once);
    }
    assert_eq!(normalize_lexically("/a/./b/../c"), "/a/c");
}

#[test]
fn a_path_that_is_shown_leads_back() {
    let path = resolve_workspace_path(&Workspace::new("/w/project"), "src/../lib/./x.rs").unwrap();
    assert_eq!(path, "/w/project/lib/x.rs");
    let shown = to_workspace_relative("/w/project", &path);
    assert_eq!(shown, "lib/x.rs");
    assert_eq!(resolve_workspace_path(&Workspace::new("/w/project"), &shown).unwrap(), path);
}

#[test]
fn several_undone_edits_come_back_in_order() {
    let mut files = FileSet::new("/work/several");
    files.write("/work/several/a", "3").unwrap();
    files.write("/work/several/b", "y").unwrap();
    let mut store = UndoStore::new(10);
    store.commit(edit("1", "a", Some("1"), Some("2")));
    store.commit(edit("2", "b", None, Some("y")));
    store.commit(edit("3", "a", Some("2"), Some("3")));
    let outcome = store.undo(3, &mut files, false).unwrap();
    assert!(outcome.conflict.is_none());
    assert_eq!(files.read("/work/several/a").as_deref(), Some("1"));
    assert_eq!(files.read("/work/several/b"), None);
    let outcome = store.redo(3, &mut files, false).unwrap();
    assert!(outcome.conflict.is_none());
    assert_eq!(files.read("/work/several/a").as_deref(), Some("3"));
    assert_eq!(files.read("/work/several/b").as_deref(), Some("y"));
    assert_eq!((store.undo_count(), store.redo_count()), (3, 0));
}

#[test]
fn a_conflict_leaves_every_file_alone() {
    let mut files = FileSet::new("/work/conflict");
    files.write("/work/conflict/a", "edited by hand").unwrap();
    files.write("/work/conflict/other", "kept").unwrap();
    let mut store = UndoStore::new(10);
    store.commit(edit("1", "a", Some("1"), Some("2")));
    let outcome = store.undo(1, &mut files, false).unwrap();
    assert!(outcome.conflict.is_some());
    assert_eq!(files.read("/work/conflict/a").as_deref(), Some("edited by hand"));
    assert_eq!(files.read("/work/conflict/other").as_deref(), Some("kept"));
}

#[test]
fn a_history_never_grows_past_its_limit() {
    let mut store = UndoStore::new(2);
    for id in ["1", "2", "3", "4"] {
        store.commit(edit(id, "a", Some("x"), Some("y")));
        assert!(store.undo_count() <= 2);
    }
    assert_eq!(store.undo_count(), 2);
}

#[test]
fn contents_and_paths_hash_as_std_hashes_them() {
    let mut hasher = std::collections::hash_map::DefaultHasher::new();
    "some text\u{e9}".hash(&mut hasher);
    assert_eq!(hash_content("some text\u{e9}"), hasher.finish());
    let mut hasher = std::collections::hash_map::DefaultHasher::new();
    std::path::Path::new("/work/a").hash(&mut hasher);
    assert_eq!(undo_store_filename("/work/a"), format!("{:016x}.json", hasher.finish()));
}

#[test]
fn a_patch_cannot_reach_outside_the_workspace() {
    let mut files = FileSet::new("/work/inside");
    files.write("/work/inside/a", "one\n").unwrap();
    files.write("/work/outside", "secret\n").unwrap();
    let patch = "*** Begin Patch\n*** Update File: a\n-one\n+two\n*** Delete File: ../outside\n*** End Patch";
    let error = apply_patch(&mut files, patch).unwrap_err();
    assert_eq!(error, ToolError::OutsideWorkspace("/work/outside".to_string()));
    assert_eq!(files.read("/work/outside").as_deref(), Some("secret\n"));
    assert_eq!(files.read("/work/inside/a").as_deref(), Some("two\n"));
}

#[test]
fn a_write_leaves_every_other_file_alone() {
    let mut files = FileSet::new("/work/write");
    files.write("/work/write/other", "kept").unwrap();
    let request = WriteRequest {
        path: "sub/../new".to_string(),
        content: "text".to_string(),
    };
    assert!(write_file(&mut files, ToolCallId::new("1"), &request, Ok(())).is_ok());
    assert_eq!(files.read("/work/write/new").as_deref(), Some("text"));
    assert_eq!(files.read("/work/write/other").as_deref(), Some("kept"));
    let denied = write_file(
        &mut files,
        ToolCallId::new("2"),
        &WriteRequest {
            path: "new".to_string(),
            content: "changed".to_string(),
        },
        Err(PermissionReason("no".to_string())),
    );
    assert_eq!(denied.unwrap_err(), ToolError::PermissionDenied("no".to_string()));
    assert_eq!(files.read("/work/write/new").as_deref(), Some("text"));
}

#[test]
fn a_command_stays_in_the_workspace_and_in_its_time() {
    let mut request = RunRequest::new("ls");
    request.cwd = "sub".to_string();
    request.timeout_seconds = Some(u64::MAX);
    assert_eq!(timeout_of(&request), 1800);
    match proceed(&Workspace::new("/work"), ToolCallId::new("1"), &request, true, Ok(())).unwrap() {
        Next::Run(command) => {
            assert_eq!(command.cwd, "/work/sub");
            assert_eq!(command.timeout_ms, 1_800_000);
        }
        Next::Answer(_) => panic!("the command was allowed"),
    }
    request.cwd = "..".to_string();
    assert_eq!(
        proceed(&Workspace::new("/work"), ToolCallId::new("2"), &request, true, Ok(())).unwrap_err(),
        ToolError::OutsideWorkspace("/".to_string())
    );
}

#[test]
fn nothing_but_https_is_accepted() {
    assert_eq!(
        official_download_url("https://example.com/a?b=c").unwrap(),
        "https://example.com/a?b=c"
    );
    assert_eq!(
        official_download_url("http://example.com/").unwrap_err(),
        UpdateError::Network("official updates require HTTPS".to_string())
    );
    assert_eq!(
        official_download_url("HTTPS://example.com").unwrap(),
        "https://example.com/"
    );
}

#[test]
fn one_unexpected_entry_refuses_a_linux_archive() {
    let mut builder = tar::Builder::new(flate2::write::GzEncoder::new(
        Vec::new(),
        flate2::Compression::default(),
    ));
    for name in ["gocode-1/gocode", "gocode-1/LICENSE", "gocode-1/deep/file"] {
        let mut header = tar::Header::new_gnu();
        header.set_size(1);
        header.set_mode(0o644);
        header.set_cksum();
        builder.append_data(&mut header, name, &b"x"[..]).unwrap();
    }
    let bytes = builder.into_inner().unwrap().finish().unwrap();
    let mut unpack = Vec::new();
    let error = extract_linux_archive(&bytes, "/staging", &mut unpack).unwrap_err();
    assert_eq!(
        error,
        UpdateError::UnsafeArchive("unexpected archive entry: gocode-1/deep/file".to_string())
    );
    assert_eq!(unpack, vec![0]);
    assert_eq!(judge_tar_path("gocode-1/gocode", &None).0, EntryUse::App);
    assert_eq!(judge_tar_path("gocode-1/LICENSE", &None).0, EntryUse::Skip);
    assert_eq!(judge_tar_path("../gocode", &None).0, EntryUse::Unsafe);
}

#[test]
fn reading_is_never_denied() {
    let read = PermissionAction::ReadOnly;
    assert_eq!(
        DefaultPermissionPolicy::read_only().evaluate(&read),
        PermissionDecision::Allow
    );
    assert_eq!(PlanPermissionPolicy.evaluate(&read), PermissionDecision::Allow);
    assert_eq!(
        ApprovePermissionPolicy::new(AllowedScopes::new()).evaluate(&read),
        PermissionDecision::Allow
    );
    assert!(matches!(
        ManualPermissionPolicy::new(AllowedScopes::new()).evaluate(&read),
        PermissionDecision::Ask(_)
    ));
}

#[test]
fn files_and_directories_stay_apart() {
    let mut files = FileSet::new("/work/tree");
    files.write("/work/tree/d/f", "text").unwrap();
    assert_eq!(files.read("/work/tree/d/f").as_deref(), Some("text"));
    assert!(files.holds_directory("/work/tree/d"));
    assert!(files.write("/work/tree/d", "x").is_err());
    assert!(files.write("/work/tree/d/f/below", "x").is_err());
    assert!(files.remove("/work/tree/d").is_err());
    files.remove("/work/tree/d/f").unwrap();
    assert!(!files.is_present("/work/tree/d/f"));
    assert!(files.holds_directory("/work/tree/d"));
}

#[test]
fn a_file_and_a_file_below_it_cannot_be_redone_together() {
    let mut files = FileSet::new("/work/nested");
    files.write("/work/nested/d", "made").unwrap();
    let mut store = UndoStore::new(10);
    let mut both = edit("1", "d", None, Some("made"));
    both.files.extend(edit("1", "d/f", Some("old"), None).files);
    store.commit(both);
    assert!(store.undo(1, &mut files, false).unwrap().conflict.is_none());
    assert_eq!(files.read("/work/nested/d/f").as_deref(), Some("old"));
    assert!(store.redo(1, &mut files, false).is_err());
}
