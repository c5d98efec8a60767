use gocode::tools::contract::ToolError;
use gocode::tools::files::{FileSet, Stored};
use gocode::tools::undo::{
    hash_content, store_filename, undo_dir, undo_store_filename, AppliedFile, Direction,
    FileAction,
    FileSnapshot, UndoStore, UndoTransaction, DEFAULT_MAX_ENTRIES,
};

fn fixture(name: &str) -> FileSet {
    FileSet::new(&format!("/work/{name}"))
}

fn put(files: &mut FileSet, name: &str, content: &str) {
    let path = format!("{}/{name}", files.workspace.root);
    files.write(&path, content).unwrap();
}

fn get(files: &FileSet, name: &str) -> Option<String> {
    files.read(&format!("{}/{name}", files.workspace.root))
}

fn txn(id: &str, files: Vec<FileSnapshot>) -> UndoTransaction {
    UndoTransaction {
        id: id.to_string(),
        created_at_unix: 0,
        description: format!("txn {id}"),
        files,
    }
}

fn snapshot(path: &str, before: Option<&str>, after: Option<&str>) -> FileSnapshot {
    FileSnapshot {
        path: path.to_string(),
        before: before.map(str::to_string),
        after: after.map(str::to_string),
    }
}

#[test]
fn undoes_and_redoes_a_simple_content_change() {
    let mut root = fixture("simple");
    put(&mut root, "a.txt", "new");

    let mut store = UndoStore::new(DEFAULT_MAX_ENTRIES);
    store.commit(txn("1", vec![snapshot("a.txt", Some("old"), Some("new"))]));

    let outcome = store.undo(1, &mut root, false).unwrap();
    assert!(outcome.conflict.is_none());
    assert_eq!(outcome.applied.len(), 1);
    assert_eq!(get(&root, "a.txt").unwrap(), "old");
    assert_eq!(store.undo_count(), 0);
    assert_eq!(store.redo_count(), 1);

    let outcome = store.redo(1, &mut root, false).unwrap();
    assert!(outcome.conflict.is_none());
    assert_eq!(get(&root, "a.txt").unwrap(), "new");
    assert_eq!(store.undo_count(), 1);
    assert_eq!(store.redo_count(), 0);
}

#[test]
fn a_new_commit_clears_the_redo_stack() {
    let mut root = fixture("clears-redo");
    put(&mut root, "a.txt", "new");

    let mut store = UndoStore::new(DEFAULT_MAX_ENTRIES);
    store.commit(txn("1", vec![snapshot("a.txt", Some("old"), Some("new"))]));
    store.undo(1, &mut root, false).unwrap();
    assert_eq!(store.redo_count(), 1);

    store.commit(txn(
        "2",
        vec![snapshot("a.txt", Some("old"), Some("newer"))],
    ));
    assert_eq!(store.redo_count(), 0);
}

#[test]
fn undo_of_a_file_creation_removes_it() {
    let mut root = fixture("create");
    put(&mut root, "new.txt", "hello");

    let mut store = UndoStore::new(DEFAULT_MAX_ENTRIES);
    store.commit(txn("1", vec![snapshot("new.txt", None, Some("hello"))]));

    let outcome = store.undo(1, &mut root, false).unwrap();
    assert_eq!(
        outcome.applied[0].files,
        vec![AppliedFile {
            path: "new.txt".to_string(),
            action: FileAction::Removed,
        }]
    );
    assert!(!root.is_present("/work/create/new.txt"));
}

#[test]
fn undo_of_a_file_deletion_restores_it() {
    let mut root = fixture("delete");

    let mut store = UndoStore::new(DEFAULT_MAX_ENTRIES);
    store.commit(txn("1", vec![snapshot("gone.txt", Some("content"), None)]));

    let outcome = store.undo(1, &mut root, false).unwrap();
    assert_eq!(
        outcome.applied[0].files,
        vec![AppliedFile {
            path: "gone.txt".to_string(),
            action: FileAction::Recreated,
        }]
    );
    assert_eq!(get(&root, "gone.txt").unwrap(), "content");
}

#[test]
fn a_multi_file_transaction_is_all_or_nothing_on_conflict() {
    let mut root = fixture("multi-file");
    put(&mut root, "a.txt", "a-new");
    put(&mut root, "b.txt", "tampered");

    let mut store = UndoStore::new(DEFAULT_MAX_ENTRIES);
    store.commit(txn(
        "1",
        vec![
            snapshot("a.txt", Some("a-old"), Some("a-new")),
            snapshot("b.txt", Some("b-old"), Some("b-new")),
        ],
    ));

    let outcome = store.undo(1, &mut root, false).unwrap();
    assert!(outcome.applied.is_empty());
    let conflict = outcome.conflict.unwrap();
    assert_eq!(conflict.files.len(), 1);
    assert_eq!(conflict.files[0].path, "b.txt");
    // Neither file was touched.
    assert_eq!(get(&root, "a.txt").unwrap(), "a-new");
    assert_eq!(get(&root, "b.txt").unwrap(), "tampered");
    assert_eq!(store.undo_count(), 1);
}

#[test]
fn a_manually_edited_file_is_reported_as_a_conflict_not_overwritten() {
    let mut root = fixture("manual-edit");
    put(&mut root, "a.txt", "human edit");

    let mut store = UndoStore::new(DEFAULT_MAX_ENTRIES);
    store.commit(txn(
        "1",
        vec![snapshot("a.txt", Some("old"), Some("agent edit"))],
    ));

    let outcome = store.undo(1, &mut root, false).unwrap();
    assert!(outcome.applied.is_empty());
    assert!(outcome.conflict.is_some());
    assert_eq!(get(&root, "a.txt").unwrap(), "human edit");
}

#[test]
fn force_bypasses_a_detected_conflict() {
    let mut root = fixture("force");
    put(&mut root, "a.txt", "human edit");

    let mut store = UndoStore::new(DEFAULT_MAX_ENTRIES);
    store.commit(txn(
        "1",
        vec![snapshot("a.txt", Some("old"), Some("agent edit"))],
    ));

    let outcome = store.undo(1, &mut root, true).unwrap();
    assert!(outcome.conflict.is_none());
    assert_eq!(outcome.applied.len(), 1);
    assert_eq!(get(&root, "a.txt").unwrap(), "old");
}

#[test]
fn empty_stacks_apply_nothing() {
    let mut root = fixture("empty");
    let mut store = UndoStore::new(DEFAULT_MAX_ENTRIES);

    let outcome = store.undo(1, &mut root, false).unwrap();
    assert!(outcome.applied.is_empty());
    assert!(outcome.conflict.is_none());

    let outcome = store.redo(1, &mut root, false).unwrap();
    assert!(outcome.applied.is_empty());
    assert!(outcome.conflict.is_none());
}

#[test]
fn oldest_transactions_are_trimmed_past_the_cap() {
    let mut store = UndoStore::new(2);

    store.commit(txn("1", vec![snapshot("a.txt", None, Some("1"))]));
    store.commit(txn("2", vec![snapshot("a.txt", None, Some("2"))]));
    store.commit(txn("3", vec![snapshot("a.txt", None, Some("3"))]));

    assert_eq!(store.undo_count(), 2);
    assert_eq!(store.undo_stack[0].id, "2");
}

#[test]
fn undo_n_stops_at_the_first_conflicting_transaction() {
    let mut root = fixture("undo-n");
    put(&mut root, "a.txt", "v2");

    let mut store = UndoStore::new(DEFAULT_MAX_ENTRIES);
    store.commit(txn(
        "1",
        vec![snapshot("a.txt", Some("v0"), Some("v1-tampered"))],
    ));
    store.commit(txn("2", vec![snapshot("a.txt", Some("v1"), Some("v2"))]));

    let outcome = store.undo(2, &mut root, false).unwrap();
    assert_eq!(outcome.applied.len(), 1);
    assert_eq!(outcome.applied[0].id, "2");
    assert!(outcome.conflict.is_some());
    assert_eq!(outcome.conflict.unwrap().id, "1");
    assert_eq!(get(&root, "a.txt").unwrap(), "v1");
    assert_eq!(store.undo_count(), 1);
}

#[test]
fn a_store_that_was_read_back_keeps_its_history() {
    let mut root = fixture("persist-round-trip");
    let mut store = UndoStore::new(10);
    store.commit(txn("1", vec![snapshot("a.txt", Some("old"), Some("new"))]));

    let mut reloaded = UndoStore::restored(Some(store), DEFAULT_MAX_ENTRIES);
    assert_eq!(reloaded.undo_count(), 1);
    assert_eq!(reloaded.redo_count(), 0);
    assert_eq!(reloaded.max_entries, DEFAULT_MAX_ENTRIES);

    put(&mut root, "a.txt", "new");
    let outcome = reloaded.undo(1, &mut root, false).unwrap();
    assert!(outcome.conflict.is_none());
    assert_eq!(get(&root, "a.txt").unwrap(), "old");
}

#[test]
fn loading_a_worktree_with_no_saved_history_is_a_fresh_empty_store() {
    let store = UndoStore::restored(None, DEFAULT_MAX_ENTRIES);
    assert_eq!(store.undo_count(), 0);
    assert_eq!(store.redo_count(), 0);
}

#[test]
fn different_worktrees_persist_to_different_files() {
    let a = undo_store_filename("/work/persist-worktree-a");
    let b = undo_store_filename("/work/persist-worktree-b");
    assert_ne!(a, b);
    assert_eq!(a, undo_store_filename("/work/persist-worktree-a"));
    assert_eq!(a.len(), 21);
    assert!(a.ends_with(".json"));
}

#[test]
fn a_history_file_is_named_by_sixteen_digits() {
    assert_eq!(store_filename(0), "0000000000000000.json");
    assert_eq!(store_filename(0xdead_beef), "00000000deadbeef.json");
    assert_eq!(store_filename(u64::MAX), "ffffffffffffffff.json");
    assert_eq!(undo_dir("/state"), "/state/undo");
    assert_eq!(undo_dir("/state/"), "/state/undo");
}

#[test]
fn a_transaction_outside_the_workspace_fails_and_is_gone() {
    let mut root = fixture("outside");
    let mut store = UndoStore::new(DEFAULT_MAX_ENTRIES);
    store.commit(txn("1", vec![snapshot("../x.txt", Some("old"), None)]));
    let error = store.undo(1, &mut root, false).unwrap_err();
    assert_eq!(error, ToolError::OutsideWorkspace("/work/x.txt".to_string()));
    assert_eq!(store.undo_count(), 0);
    assert_eq!(store.redo_count(), 0);
}

#[test]
fn redoing_reverses_undoing_of_several_files() {
    let mut root = fixture("reverse");
    put(&mut root, "a.txt", "a2");
    put(&mut root, "b.txt", "b2");
    put(&mut root, "other.txt", "same");
    let mut store = UndoStore::new(DEFAULT_MAX_ENTRIES);
    store.commit(txn(
        "1",
        vec![
            snapshot("a.txt", Some("a1"), Some("a2")),
            snapshot("b.txt", None, Some("b2")),
            snapshot("c.txt", Some("c1"), None),
        ],
    ));
    store.undo(1, &mut root, false).unwrap();
    assert_eq!(get(&root, "a.txt").as_deref(), Some("a1"));
    assert_eq!(get(&root, "b.txt"), None);
    assert_eq!(get(&root, "c.txt").as_deref(), Some("c1"));
    assert_eq!(get(&root, "other.txt").as_deref(), Some("same"));
    store.redo(1, &mut root, false).unwrap();
    assert_eq!(get(&root, "a.txt").as_deref(), Some("a2"));
    assert_eq!(get(&root, "b.txt").as_deref(), Some("b2"));
    assert_eq!(get(&root, "c.txt"), None);
    assert_eq!(store.undo_count(), 1);
}

#[test]
fn equal_contents_have_equal_hashes() {
    let one = snapshot("a", None, Some("text"));
    let two = snapshot("b", Some("x"), Some("text"));
    assert_eq!(one.after_hash(), two.after_hash());
    assert_eq!(one.after_hash(), Some(hash_content("text")));
    assert_ne!(hash_content("text"), hash_content("other"));
    assert_eq!(snapshot("a", Some("x"), None).after_hash(), None);
}

#[test]
fn a_directory_in_the_place_of_a_file_fails_an_undo() {
    let mut root = fixture("directory");
    root.note("/work/directory/made", Stored::Directory);
    let mut store = UndoStore::new(DEFAULT_MAX_ENTRIES);
    store.commit(txn("1", vec![snapshot("made", None, Some("text"))]));
    assert_eq!(
        store.undo(1, &mut root, true).unwrap_err(),
        ToolError::Io("could not remove /work/directory/made: it is a directory".to_string())
    );
    assert!(root.holds_directory("/work/directory/made"));
    // A transaction that failed halfway can be neither undone nor redone.
    assert_eq!((store.undo_count(), store.redo_count()), (0, 0));
}

#[test]
fn a_failing_file_leaves_those_before_it_reverted() {
    let mut root = fixture("halfway");
    put(&mut root, "a", "new");
    root.note("/work/halfway/b", Stored::Directory);
    let mut store = UndoStore::new(DEFAULT_MAX_ENTRIES);
    store.commit(txn(
        "1",
        vec![snapshot("a", Some("old"), Some("new")), snapshot("b", Some("old"), Some("new"))],
    ));
    assert_eq!(
        store.undo(1, &mut root, true).unwrap_err(),
        ToolError::Io("could not replace /work/halfway/b: it is a directory".to_string())
    );
    assert_eq!(get(&root, "a").as_deref(), Some("old"));
}

#[test]
fn a_created_file_that_is_no_text_any_more_is_removed_by_force() {
    let mut root = fixture("binary");
    root.note("/work/binary/made", Stored::Unreadable("not UTF-8".to_string()));
    let mut store = UndoStore::new(DEFAULT_MAX_ENTRIES);
    store.commit(txn("1", vec![snapshot("made", None, Some("text"))]));
    let outcome = store.undo(1, &mut root, true).unwrap();
    assert!(outcome.conflict.is_none());
    assert!(!root.is_present("/work/binary/made"));
}

#[test]
fn the_reachable_files_are_those_of_the_newest_transactions() {
    let mut store = UndoStore::new(DEFAULT_MAX_ENTRIES);
    store.commit(txn("1", vec![snapshot("a", None, Some("x"))]));
    store.commit(txn("2", vec![snapshot("b", None, Some("x")), snapshot("c", None, Some("x"))]));
    let mut newest = store.reachable_files(1, Direction::Undo);
    newest.sort();
    assert_eq!(newest, ["b", "c"]);
    assert_eq!(store.reachable_files(9, Direction::Undo).len(), 3);
    assert!(store.reachable_files(1, Direction::Redo).is_empty());
}
