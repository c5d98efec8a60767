use gocode::tools::builtin::apply_patch::run_patch;
use gocode::tools::builtin::ask_user::{self, check_question, UserChoice, UserQuestion};
use gocode::tools::builtin::git::{
    self, ask_diff, ask_status, check_status, conclude_diff, conclude_status, format_status,
    DiffRequest,
};
use gocode::tools::builtin::list_files::{list_files, ListRequest};
use gocode::tools::builtin::read_file::{read_file, reads_backward, Found, ReadRequest};
use gocode::tools::builtin::run_command::{self, conclude, proceed, requested_action, RunRequest};
use gocode::tools::builtin::search::{SearchRequest, SearchRun};
use gocode::tools::builtin::write_file::{write_file, WriteRequest};
use gocode::tools::builtin::{cap_chars, check_cancelled, glob_match};
use gocode::tools::contract::{
    ChangeKind, FileChange, ToolCallId, ToolError, ToolOutput, ToolResult, ToolStatus,
};
use gocode::tools::files::FileSet;
use gocode::tools::path::{Link, Workspace};
use gocode::tools::permissions::{
    authorize, Authorization, CommandRisk, DefaultPermissionPolicy, PermissionAction,
    PermissionPolicy, PermissionReason, PlanPermissionPolicy,
};
use gocode::tools::process::{ProcessError, ProcessOutcome, ProcessResult};
use gocode::tools::workspace::{DiscoveredEntry, WalkedEntry};

fn id() -> ToolCallId {
    ToolCallId::new("call-1")
}

/// Decides an action under a policy, with a user who denies every prompt.
fn decide<P: PermissionPolicy>(
    policy: &P,
    action: &PermissionAction,
) -> Result<(), PermissionReason> {
    match authorize(policy, action) {
        Authorization::Granted(_) => Ok(()),
        Authorization::Refused(reason) => Err(reason),
        Authorization::Pending(_) => Err(PermissionReason("denied".to_string())),
    }
}

fn work() -> Workspace {
    Workspace::new("/work")
}

fn put(files: &mut FileSet, name: &str, content: &str) {
    let path = format!("{}/{name}", files.workspace.root);
    files.write(&path, content).unwrap();
}

fn get(files: &FileSet, name: &str) -> Option<String> {
    files.read(&format!("{}/{name}", files.workspace.root))
}

#[test]
fn cap_chars_leaves_short_content_untouched() {
    assert_eq!(
        cap_chars("hello".to_string(), 10),
        ("hello".to_string(), false)
    );
}

#[test]
fn cap_chars_truncates_long_content_at_a_char_boundary() {
    let (content, truncated) = cap_chars("héllo".to_string(), 2);
    assert!(truncated);
    assert!(content.len() <= 2);
    assert_eq!(content, "h");
}

#[test]
fn glob_match_supports_extension_wildcards() {
    assert!(glob_match("*.rs", "src/main.rs"));
    assert!(!glob_match("*.rs", "src/main.py"));
}

#[test]
fn glob_match_supports_single_character_wildcards() {
    assert!(glob_match("a?c", "abc"));
    assert!(!glob_match("a?c", "ac"));
}

#[test]
fn globs_match_whole_texts() {
    assert!(glob_match("", ""));
    assert!(!glob_match("", "a"));
    assert!(glob_match("*", ""));
    assert!(glob_match("*", "anything"));
    assert!(glob_match("**a*", "bab"));
    assert!(!glob_match("a", "ab"));
    assert!(glob_match("é?", "éx"));
    assert!(glob_match("literal", "literal"));
    assert!(glob_match("a*b*c", "axxbyyc"));
    assert!(!glob_match("a*b*c", "axxcyyb"));
}

#[test]
fn a_cancelled_run_stops() {
    assert_eq!(check_cancelled(true), Err(ToolError::Cancelled));
    assert_eq!(check_cancelled(false), Ok(()));
}

fn read_request(path: &str, start_line: Option<usize>, end_line: Option<usize>) -> ReadRequest {
    ReadRequest {
        path: path.to_string(),
        start_line,
        end_line,
    }
}

fn read(request: &ReadRequest, found: &Found) -> Result<ToolResult, ToolError> {
    read_file(&work(), id(), request, Ok(()), found)
}

fn content(text: &str) -> Found {
    Found::Content(text.as_bytes().to_vec())
}

#[test]
fn reads_a_file_with_line_numbers() {
    let result = read(&read_request("a.rs", None, None), &content("fn main() {}\n")).unwrap();
    assert_eq!(result.status, ToolStatus::Success);
    assert!(result.output.content.starts_with("1 | fn main"));
}

#[test]
fn respects_an_explicit_line_range() {
    let result = read(
        &read_request("a.txt", Some(2), Some(3)),
        &content("one\ntwo\nthree\nfour\n"),
    )
    .unwrap();
    assert!(result.output.content.contains("2 | two"));
    assert!(result.output.content.contains("3 | three"));
    assert!(!result.output.content.contains("four"));
    assert_eq!(result.output.content, "2 | two\n3 | three\n");
}

#[test]
fn rejects_binary_content() {
    let error = read(
        &read_request("bin.dat", None, None),
        &Found::Content(vec![0u8, 1, 2, 0, 3]),
    )
    .unwrap_err();
    assert!(matches!(error, ToolError::UnsupportedFileType(_)));
}

#[test]
fn rejects_a_directory_path() {
    let error = read(&read_request("src", None, None), &Found::Directory).unwrap_err();
    assert!(matches!(error, ToolError::InvalidArguments(_)));
}

#[test]
fn missing_file_is_reported_as_not_found() {
    let error = read(&read_request("nope.txt", None, None), &Found::Missing).unwrap_err();
    assert!(matches!(error, ToolError::NotFound(_)));
}

#[test]
fn read_file_workspace_escape_is_rejected() {
    let error = read(
        &read_request("../outside.txt", None, None),
        &Found::Missing,
    )
    .unwrap_err();
    assert!(matches!(error, ToolError::OutsideWorkspace(_)));
}

#[test]
fn large_files_without_a_range_are_truncated_with_guidance() {
    let mut text = String::new();
    for n in 1..=500 {
        text.push_str(&format!("line {n}\n"));
    }
    let result = read(&read_request("big.txt", None, None), &content(&text)).unwrap();
    assert!(result.output.truncated);
    assert!(result.output.content.contains("Showing lines 1-300 of 500"));
    assert!(result.metadata.truncated);
}

#[test]
fn reading_has_its_edges() {
    let result = read(&read_request("a", Some(9), None), &content("one\n")).unwrap();
    assert_eq!(
        result.output.content,
        "(the requested range is beyond the end of the file)\n"
    );
    assert!(!result.output.truncated);
    let result = read(&read_request("a", Some(0), Some(1)), &content("one\ntwo\n")).unwrap();
    assert_eq!(result.output.content, "1 | one\n");
    let result = read(&read_request("a", None, Some(0)), &content("one\ntwo\n")).unwrap();
    assert_eq!(result.output.content, "");
    assert!(reads_backward(&read_request("a", Some(5), Some(2)), 10));
    assert!(!reads_backward(&read_request("a", Some(5), Some(4)), 10));
    assert_eq!(
        read(&read_request("a", None, None), &Found::Content(vec![0xff])).unwrap_err(),
        ToolError::UnsupportedFileType("`a` does not contain valid UTF-8 text".to_string())
    );
    assert_eq!(
        read(
            &read_request("a", None, None),
            &Found::Unreadable("no".to_string())
        )
        .unwrap_err(),
        ToolError::Io("could not read /work/a: no".to_string())
    );
    assert_eq!(
        read_file(
            &work(),
            id(),
            &read_request("../a", None, None),
            Err(PermissionReason("not now".to_string())),
            &Found::Missing
        )
        .unwrap_err(),
        ToolError::PermissionDenied("not now".to_string())
    );
}

#[test]
fn lists_project_relative_entries() {
    let walk = vec![
        WalkedEntry {
            path: "/work".to_string(),
            is_dir: true,
        },
        WalkedEntry {
            path: "/work/src".to_string(),
            is_dir: true,
        },
        WalkedEntry {
            path: "/work/src/main.rs".to_string(),
            is_dir: false,
        },
        WalkedEntry {
            path: "/work/Cargo.toml".to_string(),
            is_dir: false,
        },
    ];
    let result = list_files(&work(), id(), &ListRequest::new(), Ok(()), true, &walk).unwrap();
    assert_eq!(result.status, ToolStatus::Success);
    assert!(result.output.content.contains("Cargo.toml"));
    assert!(result.output.content.contains("src/"));
    assert_eq!(result.output.content, "Cargo.toml\nsrc/\nsrc/main.rs\n");

    let mut request = ListRequest::new();
    request.limit = 2;
    let result = list_files(&work(), id(), &request, Ok(()), true, &walk).unwrap();
    assert_eq!(
        result.output.content,
        "src/\nsrc/main.rs\n[Output truncated at 2 entries.]\n"
    );
    assert!(result.output.truncated);
    let result = list_files(&work(), id(), &ListRequest::new(), Ok(()), true, &Vec::new()).unwrap();
    assert_eq!(result.output.content, "(no entries)\n");
}

fn listed(path: &str) -> DiscoveredEntry {
    DiscoveredEntry {
        relative_path: path.to_string(),
        is_dir: false,
    }
}

/// Searches files that are given by name and content.
fn search(request: SearchRequest, files: &[(&str, &[u8])]) -> ToolResult {
    let entries = files.iter().map(|(name, _)| listed(name)).collect();
    let mut run = SearchRun::start(request, entries).unwrap();
    while let Some(path) = run.next_file(&work()).unwrap() {
        let content = files
            .iter()
            .find(|(name, _)| format!("/work/{name}") == path)
            .map(|(_, content)| content.to_vec());
        run.take(&content);
    }
    run.finish(id())
}

#[test]
fn finds_matches_with_file_and_line() {
    let result = search(
        SearchRequest::new("validate_token"),
        &[("src/auth.rs", b"fn validate_token() {}\n")],
    );
    assert_eq!(result.status, ToolStatus::Success);
    assert!(result.output.content.contains("src/auth.rs:1:"));
    assert_eq!(
        result.output.content,
        "src/auth.rs:1: fn validate_token() {}"
    );
}

#[test]
fn no_matches_is_still_a_success() {
    let result = search(
        SearchRequest::new("not_present"),
        &[("a.txt", b"nothing relevant\n")],
    );
    assert_eq!(result.status, ToolStatus::Success);
    assert!(result.output.content.starts_with("No matches"));
}

#[test]
fn glob_filter_restricts_searched_files() {
    let mut request = SearchRequest::new("needle");
    request.glob = Some("*.rs".to_string());
    let result = search(request, &[("a.py", b"needle\n"), ("a.rs", b"needle\n")]);
    assert!(result.output.content.contains("a.rs"));
    assert!(!result.output.content.contains("a.py"));
}

#[test]
fn binary_files_are_skipped() {
    let result = search(
        SearchRequest::new("needle"),
        &[("bin.dat", b"\0\x01needle"), ("text.txt", b"needle\n")],
    );
    assert!(!result.output.content.contains("bin.dat"));
    assert!(result.output.content.contains("text.txt"));
}

#[test]
fn results_are_capped_at_max_results() {
    let text: String = (0..10).map(|_| "needle\n").collect();
    let mut request = SearchRequest::new("needle");
    request.max_results = 3;
    let result = search(request, &[("a.txt", text.as_bytes()), ("b.txt", b"needle")]);
    assert!(result.output.truncated);
    assert_eq!(
        result.output.content,
        "a.txt:1: needle\na.txt:2: needle\na.txt:3: needle\n[Results truncated at 3 matches.]"
    );
}

#[test]
fn searching_has_its_edges() {
    assert_eq!(
        SearchRun::start(SearchRequest::new(""), Vec::new()).unwrap_err(),
        ToolError::InvalidArguments("query must not be empty".to_string())
    );
    assert!(SearchRun::is_searchable(2_097_152));
    assert!(!SearchRun::is_searchable(2_097_153));
    let entries = vec![listed("../x"), listed("b")];
    let mut run = SearchRun::start(SearchRequest::new("q"), entries).unwrap();
    assert!(matches!(
        run.next_file(&work()).unwrap_err(),
        ToolError::OutsideWorkspace(_)
    ));
    let mut request = SearchRequest::new("q");
    request.max_results = 0;
    let result = search(request, &[("a", b"q\nq"), ("b", b"q")]);
    assert_eq!(
        result.output.content,
        "a:1: q\n[Results truncated at 0 matches.]"
    );
}

fn write_request(path: &str, content: &str) -> WriteRequest {
    WriteRequest {
        path: path.to_string(),
        content: content.to_string(),
    }
}

#[test]
fn creates_a_new_file() {
    let mut root = FileSet::new("/work/create");
    let result = write_file(
        &mut root,
        id(),
        &write_request("new.rs", "fn main() {}\n"),
        Ok(()),
    )
    .unwrap();
    assert_eq!(result.status, ToolStatus::Success);
    assert!(result.output.content.starts_with("Created"));
    assert_eq!(result.output.content, "Created `new.rs` (1 lines).");
    assert_eq!(get(&root, "new.rs").unwrap(), "fn main() {}\n");
    assert_eq!(
        result.metadata.affected_files,
        vec![FileChange {
            path: "new.rs".to_string(),
            kind: ChangeKind::Created
        }]
    );
}

#[test]
fn replaces_an_existing_file() {
    let mut root = FileSet::new("/work/replace");
    put(&mut root, "a.txt", "old");
    let result = write_file(&mut root, id(), &write_request("a.txt", "new"), Ok(())).unwrap();
    assert!(result.output.content.starts_with("Replaced"));
    assert_eq!(get(&root, "a.txt").unwrap(), "new");
}

#[test]
fn write_file_denied_without_editing_intent() {
    let mut root = FileSet::new("/work/denied");
    let request = write_request("a.txt", "x");
    let action =
        gocode::tools::builtin::write_file::requested_action(&Workspace::new("/work/denied"), &request).unwrap();
    let permission = decide(&DefaultPermissionPolicy::read_only(), &action);
    let error = write_file(&mut root, id(), &request, permission).unwrap_err();
    assert!(matches!(error, ToolError::PermissionDenied(_)));
    assert!(!root.is_present("/work/denied/a.txt"));
}

#[test]
fn write_file_workspace_escape_is_rejected() {
    let mut root = FileSet::new("/work/escape");
    let error = write_file(
        &mut root,
        id(),
        &write_request("../outside.txt", "x"),
        Ok(()),
    )
    .unwrap_err();
    assert!(matches!(error, ToolError::OutsideWorkspace(_)));
}

#[test]
fn a_directory_is_not_written() {
    let mut root = FileSet::new("/work");
    put(&mut root, "src/a.rs", "x");
    assert_eq!(
        write_file(&mut root, id(), &write_request("src", "x"), Ok(())).unwrap_err(),
        ToolError::InvalidArguments("src is a directory, not a file".to_string())
    );
}

#[test]
fn applies_a_valid_patch_and_reports_the_change() {
    let mut root = FileSet::new("/work/apply");
    put(&mut root, "a.txt", "one\ntwo\nthree\n");
    let patch = "*** Begin Patch\n*** Update File: a.txt\n one\n-two\n+TWO\n*** End Patch";

    let result = run_patch(&mut root, id(), patch, Ok(())).unwrap();

    assert_eq!(result.status, ToolStatus::Success);
    assert!(result.output.content.contains("Modified"));
    assert_eq!(result.output.content, "Applied patch:\n  Modified a.txt\n");
    assert_eq!(get(&root, "a.txt").unwrap(), "one\nTWO\nthree\n");
}

#[test]
fn apply_patch_denied_without_editing_intent() {
    let mut root = FileSet::new("/work/denied");
    put(&mut root, "a.txt", "one\n");
    let patch = "*** Begin Patch\n*** Update File: a.txt\n-one\n+ONE\n*** End Patch";
    let action = gocode::tools::builtin::apply_patch::requested_action("/work/denied");
    let permission = decide(&DefaultPermissionPolicy::read_only(), &action);

    let error = run_patch(&mut root, id(), patch, permission).unwrap_err();

    assert!(matches!(error, ToolError::PermissionDenied(_)));
    assert_eq!(get(&root, "a.txt").unwrap(), "one\n");
}

#[test]
fn invalid_patch_is_reported_as_invalid_arguments() {
    let mut root = FileSet::new("/work/invalid");
    let error = run_patch(&mut root, id(), "garbage", Ok(())).unwrap_err();
    assert!(matches!(error, ToolError::InvalidArguments(_)));
}

fn run_request(program: &str, args: &[&str]) -> RunRequest {
    let mut request = RunRequest::new(program);
    request.args = args.iter().map(|arg| arg.to_string()).collect();
    request
}

fn process(stdout: &str, stderr: &str, exit_code: Option<i32>) -> ProcessResult {
    ProcessResult {
        exit_code,
        stdout: stdout.to_string(),
        stderr: stderr.to_string(),
        stdout_truncated: false,
        stderr_truncated: false,
        duration_ms: 5,
        outcome: ProcessOutcome::Completed,
    }
}

/// Judges a command under plan mode, with a user who denies every prompt.
fn plan_mode(request: &RunRequest) -> run_command::Next {
    let action = requested_action(&work(), request, true).unwrap();
    let permission = decide(&PlanPermissionPolicy, &action);
    proceed(&work(), id(), request, true, permission).unwrap()
}

fn answer(next: run_command::Next) -> ToolResult {
    match next {
        run_command::Next::Answer(result) => result,
        run_command::Next::Run(_) => panic!("the command should not run"),
    }
}

#[test]
fn low_risk_command_runs_and_reports_exit_code() {
    let request = run_request("cargo", &["--version"]);
    let action = requested_action(&work(), &request, true).unwrap();
    let permission = decide(&DefaultPermissionPolicy::editing(), &action);
    let next = proceed(&work(), id(), &request, true, permission).unwrap();
    let run_command::Next::Run(command) = next else {
        panic!("the command should run");
    };
    assert_eq!(command.program, "cargo");
    assert_eq!(command.args, ["--version"]);
    assert_eq!(command.cwd, "/work");
    assert_eq!(command.timeout_ms, 120_000);

    let result = conclude(id(), &request, Ok(process("cargo 1.0\n", "", Some(0))));
    assert_eq!(result.status, ToolStatus::Success);
    assert!(result.metadata.exit_code.is_some());
    assert_eq!(
        result.output.content,
        "Process exited with code 0.\n--- stdout ---\ncargo 1.0\n\n"
    );
}

#[test]
fn medium_risk_command_is_denied_when_the_resolver_rejects() {
    let result = answer(plan_mode(&run_request("npm", &["install"])));
    assert_eq!(result.status, ToolStatus::Denied);
}

#[test]
fn high_risk_command_is_denied_outright() {
    let result = answer(plan_mode(&run_request("git", &["push"])));
    assert_eq!(result.status, ToolStatus::Denied);
}

#[test]
fn cwd_must_stay_inside_the_workspace() {
    let mut request = run_request("echo", &[]);
    request.cwd = "../".to_string();
    let error = requested_action(&work(), &request, true).unwrap_err();
    assert!(matches!(error, ToolError::OutsideWorkspace(_)));
}

#[test]
fn missing_executable_is_reported_as_failed() {
    let request = run_request("definitely-not-a-real-executable-xyz", &[]);
    let result = conclude(
        id(),
        &request,
        Err(ProcessError::SpawnFailed("not found".to_string())),
    );
    assert_eq!(result.status, ToolStatus::Failed);
    assert_eq!(
        result.output.content,
        "could not run `definitely-not-a-real-executable-xyz`: not found"
    );
}

#[test]
fn a_command_can_end_in_other_ways() {
    let mut request = run_request("sleep", &["5"]);
    request.timeout_seconds = Some(9_999);
    let mut ended = process("", "", None);
    ended.outcome = ProcessOutcome::TimedOut;
    let result = conclude(id(), &request, Ok(ended));
    assert_eq!(
        result.output.content,
        "command timed out after 1800 seconds"
    );
    assert_eq!(result.status, ToolStatus::Failed);
    let mut ended = process("x", "", None);
    ended.outcome = ProcessOutcome::Cancelled;
    let result = conclude(id(), &request, Ok(ended));
    assert_eq!(result.status, ToolStatus::Cancelled);
    let mut ended = process("", "bad", Some(-1));
    ended.stderr_truncated = true;
    let result = conclude(id(), &request, Ok(ended));
    assert_eq!(
        result.output,
        ToolOutput::truncated("Process exited with code -1.\n--- stderr ---\nbad\n".to_string())
    );
    assert_eq!(result.metadata.duration_ms, Some(5));
    let result = conclude(id(), &request, Ok(process("", "", None)));
    assert_eq!(result.output.content, "Process exited with code unknown.\n");
}

#[test]
fn a_command_needs_a_directory() {
    let mut request = run_request("ls", &[]);
    request.cwd = "file".to_string();
    assert_eq!(
        requested_action(&work(), &request, false).unwrap_err(),
        ToolError::InvalidArguments("file is not a directory".to_string())
    );
    let PermissionAction::Command { risk, cwd, .. } =
        requested_action(&work(), &run_request("rm", &["-rf", "x"]), true).unwrap()
    else {
        panic!("a command is asked for");
    };
    assert_eq!(risk, CommandRisk::High);
    assert_eq!(cwd, "/work");
}

#[test]
fn non_git_project_reports_a_friendly_message() {
    let next = ask_status("/work", id(), Ok(()), false).unwrap();
    let git::Next::Answer(result) = next else {
        panic!("git should not be run");
    };
    assert_eq!(result.status, ToolStatus::Success);
    assert!(result
        .output
        .content
        .contains("not inside a Git repository"));
}

#[test]
fn status_reports_untracked_and_modified_files() {
    let git::Next::Run(command) = ask_status("/work", id(), Ok(()), true).unwrap() else {
        panic!("git should be run");
    };
    assert_eq!(command.program, "git");
    assert_eq!(command.args, ["status", "--porcelain"]);
    let output = process(" M tracked.txt\n?? untracked.txt\n", "", Some(0));
    assert!(check_status(&output.stdout));
    let result = conclude_status(id(), &output);
    assert!(result.output.content.contains("Modified"));
    assert!(result.output.content.contains("tracked.txt"));
    assert!(result.output.content.contains("Untracked"));
    assert!(result.output.content.contains("untracked.txt"));
    assert_eq!(
        result.output.content,
        "Modified:\n  tracked.txt\n\nUntracked:\n  untracked.txt"
    );
}

#[test]
fn diff_reports_no_changes_on_a_clean_tree() {
    let result = conclude_diff(id(), process("", "", Some(0)));
    assert_eq!(result.output.content, "No changes.");
}

#[test]
fn diff_can_be_scoped_to_one_path() {
    let request = DiffRequest {
        path: Some("a.txt".to_string()),
        staged: false,
    };
    let git::Next::Run(command) = ask_diff("/work", id(), &request, Ok(()), true).unwrap() else {
        panic!("git should be run");
    };
    assert_eq!(command.args, ["diff", "--", "a.txt"]);
    let request = DiffRequest {
        path: None,
        staged: true,
    };
    let git::Next::Run(command) = ask_diff("/work", id(), &request, Ok(()), true).unwrap() else {
        panic!("git should be run");
    };
    assert_eq!(command.args, ["diff", "--staged"]);
    assert_eq!(command.timeout_ms, 30_000);
}

#[test]
fn every_kind_of_change_has_its_section() {
    assert_eq!(format_status(""), "The working tree is clean.");
    assert_eq!(
        format_status("A  new.rs\nMM both.rs\n D gone.rs\nD  also.rs\n?? x\n!!\n   skip\nR  a -> b\n"),
        "Staged:\n  new.rs\n  a -> b\n\nModified:\n  both.rs\n\nDeleted:\n  gone.rs\n  also.rs\n\nUntracked:\n  x"
    );
    assert!(!check_status("ab€"));
    assert!(check_status("é x"));
    assert_eq!(format_status("é x"), "Staged:\n  x");
}

#[test]
fn a_long_diff_is_cut() {
    let result = conclude_diff(id(), process(&"x".repeat(60_001), "", Some(0)));
    assert!(result.output.truncated);
    assert!(result
        .output
        .content
        .ends_with("x\n[Diff truncated at 60000 characters.]"));
    let result = conclude_diff(id(), process(&"x".repeat(60_000), "", Some(0)));
    assert!(!result.output.truncated);
    assert_eq!(
        git::spawn_failed(ProcessError::SpawnFailed("no".to_string())),
        ToolError::Internal("could not run git: no".to_string())
    );
}

#[test]
fn schema_requires_short_option_explanations() {
    let definition = ask_user::definition();
    let schema: serde_json::Value = serde_json::from_str(&definition.input_schema).unwrap();
    let required = schema["properties"]["choices"]["items"]["required"]
        .as_array()
        .unwrap();
    assert!(required.iter().any(|item| item == "advantages"));
    assert!(required.iter().any(|item| item == "disadvantages"));
}

fn choice(label: &str, recommended: bool) -> UserChoice {
    UserChoice {
        label: label.to_string(),
        summary: "s".to_string(),
        advantages: "a".to_string(),
        disadvantages: "d".to_string(),
        recommended,
    }
}

#[test]
fn a_question_must_explain_itself() {
    let mut question = UserQuestion {
        title: "Which?".to_string(),
        context: String::new(),
        choices: vec![choice("one", true), choice("two", false)],
    };
    assert_eq!(check_question(&question), Ok(()));
    question.choices[1].recommended = true;
    let incomplete = ToolError::InvalidArguments(
        "each choice needs concise label, summary, advantages and disadvantages; mark at most one recommended choice".to_string(),
    );
    assert_eq!(check_question(&question), Err(incomplete.clone()));
    question.choices[1] = choice(" ", false);
    assert_eq!(check_question(&question), Err(incomplete));
    let shape = ToolError::InvalidArguments(
        "title is required and choices must contain 2 to 4 entries".to_string(),
    );
    question.choices.pop();
    assert_eq!(check_question(&question), Err(shape.clone()));
    question.title = " ".to_string();
    question.choices.push(choice("two", false));
    assert_eq!(check_question(&question), Err(shape));
}

#[test]
fn an_unanswered_question_cancels() {
    assert_eq!(
        ask_user::conclude(id(), None).unwrap_err(),
        ToolError::Cancelled
    );
    assert_eq!(
        ask_user::conclude(id(), Some("two".to_string()))
            .unwrap()
            .output
            .content,
        "The user selected: two"
    );
}

#[test]
fn errors_are_shown_in_words() {
    for (error, expected) in [
        (
            ToolError::InvalidArguments("x".to_string()),
            "invalid arguments: x",
        ),
        (
            ToolError::OutsideWorkspace("/x".to_string()),
            "/x is outside the workspace",
        ),
        (ToolError::NotFound("/x".to_string()), "/x was not found"),
        (
            ToolError::PermissionDenied("x".to_string()),
            "permission denied: x",
        ),
        (
            ToolError::UnsupportedFileType("x".to_string()),
            "unsupported file: x",
        ),
        (ToolError::Io("x".to_string()), "I/O error: x"),
        (ToolError::Cancelled, "the operation was cancelled"),
        (ToolError::Timeout, "the operation timed out"),
        (
            ToolError::Internal("x".to_string()),
            "internal error: x",
        ),
    ] {
        assert_eq!(error.message(), expected);
    }
}

#[test]
fn a_search_that_finds_no_more_than_asked_for_is_whole() {
    let mut request = SearchRequest::new("needle");
    request.max_results = 2;
    let result = search(request, &[("a.txt", b"needle\nother\nneedle\n"), ("b.txt", b"none")]);
    assert!(!result.output.truncated);
    assert_eq!(result.output.content, "a.txt:1: needle\na.txt:3: needle");
}

#[test]
fn a_listing_of_no_more_than_asked_for_is_whole() {
    let entry = |path: &str| WalkedEntry { path: path.to_string(), is_dir: false };
    let walk = vec![entry("/work/b"), entry("/work/a")];
    let mut request = ListRequest::new();
    request.limit = 2;
    let result = list_files(&work(), id(), &request, Ok(()), true, &walk).unwrap();
    assert!(!result.output.truncated);
    assert_eq!(result.output.content, "a\nb\n");
}

#[test]
fn a_link_out_of_the_workspace_is_rejected_by_every_tool() {
    let leaving = || {
        let mut workspace = Workspace::new("/work");
        workspace.links.push(Link { path: "/work/out".to_string(), target: "/etc/x".to_string() });
        workspace
    };
    let refused = ToolError::OutsideWorkspace("/work/out".to_string());
    let request = read_request("out", None, None);
    assert_eq!(
        read_file(&leaving(), id(), &request, Ok(()), &content("secret")).unwrap_err(),
        refused
    );
    let mut files = FileSet::of(leaving());
    assert_eq!(
        write_file(&mut files, id(), &write_request("out", "x"), Ok(())).unwrap_err(),
        refused
    );
    let patch = "*** Begin Patch\n*** Add File: out\n+x\n*** End Patch";
    assert_eq!(run_patch(&mut files, id(), patch, Ok(())).unwrap_err(), refused);
    let mut request = run_request("ls", &[]);
    request.cwd = "out".to_string();
    assert_eq!(requested_action(&leaving(), &request, true).unwrap_err(), refused);
}

#[test]
fn a_link_inside_the_workspace_is_followed() {
    let mut workspace = Workspace::new("/work");
    workspace.links.push(Link { path: "/work/link".to_string(), target: "/work/a".to_string() });
    let mut files = FileSet::of(workspace);
    put(&mut files, "a", "old");
    write_file(&mut files, id(), &write_request("link", "new"), Ok(())).unwrap();
    assert_eq!(get(&files, "a").unwrap(), "new");
    assert!(!files.is_present("/work/link"));
}
