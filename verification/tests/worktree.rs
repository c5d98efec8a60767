use gocode::tools::process::{ProcessError, ProcessOutcome, ProcessResult};
use gocode::tools::worktree::{
    ask_create, ask_current_branch, ask_current_head, ask_remove, ask_worktrees, create_worktree,
    list_worktrees, parse_worktree_list, read_current_branch, read_current_head, remove_worktree,
    resolve_target, spawn_failed, validate_name, worktree_target, worktrees_root, BranchSource,
    WorktreeEntry, WorktreeError,
};

fn process(stdout: &str, stderr: &str, exit_code: Option<i32>) -> ProcessResult {
    ProcessResult {
        exit_code,
        stdout: stdout.to_string(),
        stderr: stderr.to_string(),
        stdout_truncated: false,
        stderr_truncated: false,
        duration_ms: 0,
        outcome: ProcessOutcome::Completed,
    }
}

const LIST: &str = "worktree /code/app\nHEAD 1111\nbranch refs/heads/main\n\nworktree /code/app-worktrees/task-a\nHEAD 2222\nbranch refs/heads/task-a\n\nworktree /code/app-worktrees/free\nHEAD 3333\ndetached\n";

fn entries() -> Vec<WorktreeEntry> {
    list_worktrees(&process(LIST, "", Some(0))).unwrap()
}

#[test]
fn names_reject_traversal_and_injection_attempts() {
    assert!(validate_name("feature-x").is_ok());
    assert!(validate_name("").is_err());
    assert!(validate_name("..").is_err());
    assert!(validate_name("../escape").is_err());
    assert!(validate_name("a/b").is_err());
    assert!(validate_name("-rf").is_err());
    assert!(validate_name("evil; rm -rf /").is_err());
}

#[test]
fn a_refused_name_says_why() {
    for (name, reason) in [
        ("", "name cannot be empty"),
        (".", "name cannot be '.' or '..'"),
        ("-x", "name cannot start with '-'"),
        ("a..b", "name cannot contain path separators or '..'"),
        ("a\\b", "name cannot contain path separators or '..'"),
        (
            "a b",
            "name may only contain letters, digits, '-', '_', and '.'",
        ),
        (
            "é",
            "name may only contain letters, digits, '-', '_', and '.'",
        ),
    ] {
        assert_eq!(
            validate_name(name),
            Err(WorktreeError::InvalidName(reason.to_string()))
        );
    }
}

#[test]
fn a_non_git_directory_is_reported_clearly() {
    let error = ask_worktrees("/code/app", false).unwrap_err();
    assert_eq!(error, WorktreeError::NotAGitRepository);
    assert_eq!(
        ask_current_branch("/code/app", false).unwrap_err(),
        WorktreeError::NotAGitRepository
    );
}

#[test]
fn creates_a_worktree_with_a_new_branch_from_the_current_branch() {
    let request = ask_current_branch("/code/app", true).unwrap();
    assert_eq!(request.args, ["rev-parse", "--abbrev-ref", "HEAD"]);
    let base = read_current_branch(&process("main\n", "", Some(0)))
        .unwrap()
        .unwrap();
    assert_eq!(base, "main");

    let branch = BranchSource::New { base };
    let request = ask_create("/code/app", true, "my-task", &branch, false).unwrap();
    assert_eq!(request.program, "git");
    assert_eq!(request.cwd, "/code/app");
    assert_eq!(
        request.args,
        [
            "worktree",
            "add",
            "-b",
            "my-task",
            "/code/app-worktrees/my-task",
            "main"
        ]
    );
    let target = worktree_target("/code/app", "my-task").unwrap();
    let head = read_current_head(&process("abc\n", "", Some(0)));
    let entry =
        create_worktree(&process("", "", Some(0)), target, "my-task", &branch, head).unwrap();
    assert_eq!(entry.branch.as_deref(), Some("my-task"));
    assert_eq!(
        entry.path,
        format!("{}/my-task", worktrees_root("/code/app").unwrap())
    );
    assert_eq!(entry.head, "abc");
    assert!(!entry.is_main);
}

#[test]
fn creates_a_worktree_from_an_existing_branch_on_request() {
    let branch = BranchSource::Existing("feature-existing".to_string());
    let request = ask_create("/code/app", true, "reuse", &branch, false).unwrap();
    assert_eq!(
        request.args,
        [
            "worktree",
            "add",
            "/code/app-worktrees/reuse",
            "feature-existing"
        ]
    );
    let entry = create_worktree(
        &process("", "", Some(0)),
        "/code/app-worktrees/reuse".to_string(),
        "reuse",
        &branch,
        None,
    )
    .unwrap();
    assert_eq!(entry.branch.as_deref(), Some("feature-existing"));
    assert_eq!(entry.head, "");
}

#[test]
fn lists_the_main_worktree_and_every_linked_one() {
    let request = ask_worktrees("/code/app", true).unwrap();
    assert_eq!(request.args, ["worktree", "list", "--porcelain"]);
    let entries = entries();
    assert_eq!(entries.len(), 3);
    assert!(entries[0].is_main);
    assert_eq!(entries[0].path, "/code/app");
    assert!(!entries[1].is_main);
    assert_eq!(entries[1].branch.as_deref(), Some("task-a"));
    assert_eq!(entries[2].branch, None);
    assert_eq!(entries[2].head, "3333");

    let places = vec![None, None, None];
    let resolved = resolve_target(&entries, &places, "task-a", &None).unwrap();
    assert_eq!(resolved.path, entries[1].path);
}

#[test]
fn removing_the_main_worktree_is_refused() {
    let entries = entries();
    let error = ask_remove("/code/app", &entries, &Vec::new(), "/code/app", &None).unwrap_err();
    assert_eq!(error, WorktreeError::RefusedMainWorktree);
    // Also where another path leads to it.
    let places = vec![Some("/real/app".to_string()), None, None];
    let error = ask_remove(
        "/code/app",
        &entries,
        &places,
        "link",
        &Some("/real/app".to_string()),
    )
    .unwrap_err();
    assert_eq!(error, WorktreeError::RefusedMainWorktree);
}

#[test]
fn removing_an_unknown_target_is_reported_clearly() {
    let error = ask_remove(
        "/code/app",
        &entries(),
        &Vec::new(),
        "does-not-exist",
        &None,
    )
    .unwrap_err();
    assert_eq!(error, WorktreeError::NotFound("does-not-exist".to_string()));
}

#[test]
fn a_linked_worktree_can_be_removed_by_name() {
    let (path, request) =
        ask_remove("/code/app", &entries(), &Vec::new(), "task-a", &None).unwrap();
    assert_eq!(path, "/code/app-worktrees/task-a");
    assert_eq!(
        request.args,
        ["worktree", "remove", "/code/app-worktrees/task-a"]
    );
    let removed_path = remove_worktree(&process("", "", Some(0)), path).unwrap();
    assert_eq!(removed_path, "/code/app-worktrees/task-a");
    assert_eq!(
        remove_worktree(&process("", "dirty", Some(128)), String::new()).unwrap_err(),
        WorktreeError::GitFailed("dirty".to_string())
    );
}

#[test]
fn nothing_is_created_where_something_is() {
    let branch = BranchSource::New {
        base: "main".to_string(),
    };
    assert_eq!(
        ask_create("/code/app", true, "x", &branch, true).unwrap_err(),
        WorktreeError::InvalidName("'/code/app-worktrees/x' already exists".to_string())
    );
    assert_eq!(
        ask_create("/", true, "x", &branch, false).unwrap_err(),
        WorktreeError::NotAGitRepository
    );
    assert_eq!(
        ask_create("/code/app", false, "x", &branch, false).unwrap_err(),
        WorktreeError::NotAGitRepository
    );
    let bad = BranchSource::Existing("a b".to_string());
    assert!(matches!(
        ask_create("/code/app", true, "x", &bad, false).unwrap_err(),
        WorktreeError::InvalidName(_)
    ));
}

#[test]
fn a_detached_head_has_no_branch() {
    assert_eq!(
        read_current_branch(&process("HEAD\n", "", Some(0))).unwrap(),
        None
    );
    assert_eq!(read_current_branch(&process("", "", Some(0))).unwrap(), None);
    assert_eq!(
        read_current_branch(&process("", "boom", None)).unwrap_err(),
        WorktreeError::GitFailed("boom".to_string())
    );
    assert_eq!(read_current_head(&process("x", "", Some(1))), None);
    assert_eq!(ask_current_head("/w").args, ["rev-parse", "HEAD"]);
    assert_eq!(parse_worktree_list("HEAD 1\n"), Vec::new());
}

#[test]
fn worktree_errors_are_shown_in_words() {
    for (error, expected) in [
        (
            WorktreeError::NotAGitRepository,
            "this directory is not inside a Git repository",
        ),
        (
            WorktreeError::InvalidName("x".to_string()),
            "invalid name: x",
        ),
        (
            spawn_failed(ProcessError::SpawnFailed("x".to_string())),
            "could not run git: x",
        ),
        (WorktreeError::GitFailed("x".to_string()), "git failed: x"),
        (
            WorktreeError::NotFound("x".to_string()),
            "no worktree matches 'x'",
        ),
        (
            WorktreeError::RefusedMainWorktree,
            "refusing to remove the repository's main worktree",
        ),
    ] {
        assert_eq!(error.message(), expected);
    }
}
