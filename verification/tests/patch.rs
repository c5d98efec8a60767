use gocode::tools::contract::{ChangeKind, ToolError};
use gocode::tools::files::{FileSet, Stored};
use gocode::tools::patch::{
    apply_hunks, apply_patch, find_subsequence, join_content, named_files, parse_add_body,
    parse_hunks, parse_patch, split_content, FileOperation, Hunk,
};

fn workspace(name: &str) -> FileSet {
    FileSet::new(&format!("/work/{name}"))
}

fn put(files: &mut FileSet, name: &str, content: &str) {
    let path = format!("{}/{name}", files.workspace.root);
    files.write(&path, content).unwrap();
}

fn get(files: &FileSet, name: &str) -> Option<String> {
    files.read(&format!("{}/{name}", files.workspace.root))
}

fn message(error: ToolError) -> String {
    match error {
        ToolError::InvalidArguments(message) => message,
        other => panic!("unexpected error: {other:?}"),
    }
}

#[test]
fn single_file_update_replaces_the_matched_lines() {
    let mut root = workspace("single-update");
    put(&mut root, "main.rs", "fn main() {\n    println!(\"hi\");\n}\n");

    let patch = "*** Begin Patch\n*** Update File: main.rs\n fn main() {\n-    println!(\"hi\");\n+    println!(\"hello\");\n }\n*** End Patch";
    let changes = apply_patch(&mut root, patch).unwrap();

    assert_eq!(changes.len(), 1);
    assert_eq!(changes[0].kind, ChangeKind::Modified);
    assert_eq!(
        get(&root, "main.rs").unwrap(),
        "fn main() {\n    println!(\"hello\");\n}\n"
    );
}

#[test]
fn multiple_hunks_in_one_file_are_applied_in_order() {
    let mut root = workspace("multi-hunk");
    put(&mut root, "a.txt", "one\ntwo\nthree\nfour\nfive\n");

    let patch = "*** Begin Patch\n*** Update File: a.txt\n@@\n one\n-two\n+TWO\n@@\n four\n-five\n+FIVE\n*** End Patch";
    apply_patch(&mut root, patch).unwrap();

    assert_eq!(get(&root, "a.txt").unwrap(), "one\nTWO\nthree\nfour\nFIVE\n");
}

#[test]
fn file_creation_writes_new_content() {
    let mut root = workspace("add-file");
    let patch = "*** Begin Patch\n*** Add File: new_module.rs\n+pub fn hello() {}\n*** End Patch";
    let changes = apply_patch(&mut root, patch).unwrap();

    assert_eq!(changes[0].kind, ChangeKind::Created);
    assert_eq!(get(&root, "new_module.rs").unwrap(), "pub fn hello() {}\n");
}

#[test]
fn context_mismatch_fails_without_modifying_the_file() {
    let mut root = workspace("mismatch");
    put(&mut root, "a.txt", "one\ntwo\nthree\n");

    let patch =
        "*** Begin Patch\n*** Update File: a.txt\n one\n-DOES_NOT_MATCH\n+two\n*** End Patch";
    let error = apply_patch(&mut root, patch).unwrap_err();

    assert!(matches!(error, ToolError::InvalidArguments(_)));
    assert_eq!(get(&root, "a.txt").unwrap(), "one\ntwo\nthree\n");
}

#[test]
fn invalid_patch_without_markers_is_rejected() {
    let mut root = workspace("invalid");
    let error = apply_patch(&mut root, "not a patch").unwrap_err();
    assert!(matches!(error, ToolError::InvalidArguments(_)));
}

#[test]
fn patch_workspace_escape_is_rejected() {
    let mut root = workspace("escape");
    let patch =
        "*** Begin Patch\n*** Update File: ../outside.txt\n context\n-old\n+new\n*** End Patch";
    let error = apply_patch(&mut root, patch).unwrap_err();
    assert!(matches!(error, ToolError::OutsideWorkspace(_)));
}

#[test]
fn crlf_line_endings_are_preserved() {
    let mut root = workspace("crlf");
    put(&mut root, "a.txt", "one\r\ntwo\r\nthree\r\n");

    let patch = "*** Begin Patch\n*** Update File: a.txt\n one\n-two\n+TWO\n*** End Patch";
    apply_patch(&mut root, patch).unwrap();

    assert_eq!(get(&root, "a.txt").unwrap(), "one\r\nTWO\r\nthree\r\n");
}

#[test]
fn unicode_content_round_trips() {
    let mut root = workspace("unicode");
    put(&mut root, "a.txt", "café\nnaïve\n");

    let patch = "*** Begin Patch\n*** Update File: a.txt\n café\n-naïve\n+naive\n*** End Patch";
    apply_patch(&mut root, patch).unwrap();

    assert_eq!(get(&root, "a.txt").unwrap(), "café\nnaive\n");
}

#[test]
fn deleting_a_missing_file_is_reported_as_not_found() {
    let mut root = workspace("delete-missing");
    let patch = "*** Begin Patch\n*** Delete File: missing.txt\n*** End Patch";
    let error = apply_patch(&mut root, patch).unwrap_err();
    assert!(matches!(error, ToolError::NotFound(_)));
}

#[test]
fn a_patch_is_read_into_its_operations() {
    let patch = "*** Begin Patch\n\n*** Update File: a.txt\n same\n-old\n+new\n@@ second\n\n-gone\n*** Add File: b.txt\n+one\ntwo\n*** Delete File: c.txt\n*** End Patch\nignored";
    assert_eq!(
        parse_patch(patch).unwrap(),
        vec![
            FileOperation::Update {
                path: "a.txt".to_string(),
                hunks: vec![
                    Hunk {
                        old_lines: vec!["same".to_string(), "old".to_string()],
                        new_lines: vec!["same".to_string(), "new".to_string()],
                    },
                    Hunk {
                        old_lines: vec![String::new(), "gone".to_string()],
                        new_lines: vec![String::new()],
                    },
                ],
            },
            FileOperation::Add {
                path: "b.txt".to_string(),
                content: vec!["one".to_string(), "two".to_string()],
            },
            FileOperation::Delete {
                path: "c.txt".to_string(),
            },
        ]
    );
}

#[test]
fn malformed_patches_say_what_is_wrong() {
    for (patch, expected) in [
        ("", "patch is empty"),
        ("*** Begin", "patch must start with `*** Begin Patch`"),
        ("*** Begin Patch\n", "patch must end with `*** End Patch`"),
        (
            "*** Begin Patch\n*** End Patch",
            "patch contains no file operations",
        ),
        (
            "*** Begin Patch\nhello\n*** End Patch",
            "unrecognized patch line: `hello`",
        ),
        (
            "*** Begin Patch\n*** Update File: a\n@@\n*** End Patch",
            "update section has no hunk content",
        ),
        (
            "*** Begin Patch\n*** Update File: a\n+new\n*** End Patch",
            "each hunk needs at least one context or removed line to locate its position",
        ),
        (
            "*** Begin Patch\n*** Update File: a\n?new\n*** End Patch",
            "patch hunk line must start with ' ', '-', or '+': `?new`",
        ),
    ] {
        assert_eq!(message(parse_patch(patch).unwrap_err()), expected);
    }
}

#[test]
fn operations_before_a_failing_one_stay_performed() {
    let mut root = workspace("partial");
    put(&mut root, "a.txt", "one\n");
    let patch = "*** Begin Patch\n*** Delete File: a.txt\n*** Add File: b.txt\n+b\n*** Delete File: c.txt\n*** End Patch";
    let error = apply_patch(&mut root, patch).unwrap_err();
    assert_eq!(error, ToolError::NotFound("/work/partial/c.txt".to_string()));
    assert_eq!(get(&root, "a.txt"), None);
    assert_eq!(get(&root, "b.txt").as_deref(), Some("b\n"));
}

#[test]
fn a_file_that_exists_is_not_added_again() {
    let mut root = workspace("exists");
    put(&mut root, "src/a.txt", "one\n");
    for name in ["src/a.txt", "src"] {
        let patch = format!("*** Begin Patch\n*** Add File: {name}\n+x\n*** End Patch");
        assert_eq!(
            message(apply_patch(&mut root, &patch).unwrap_err()),
            format!("`{name}` already exists; use an Update File section instead")
        );
    }
    root.note("/work/exists/empty", Stored::Directory);
    let patch = "*** Begin Patch\n*** Add File: empty\n+x\n*** End Patch";
    assert!(apply_patch(&mut root, patch).is_err());
    assert_eq!(get(&root, "src/a.txt").as_deref(), Some("one\n"));
}

#[test]
fn an_added_file_without_lines_is_empty() {
    let mut root = workspace("empty");
    let patch = "*** Begin Patch\n*** Add File: a.txt\n*** End Patch";
    apply_patch(&mut root, patch).unwrap();
    assert_eq!(get(&root, "a.txt").as_deref(), Some(""));
}

#[test]
fn a_patch_leaves_other_files_alone() {
    let mut root = workspace("others");
    put(&mut root, "a.txt", "a\n");
    put(&mut root, "b.txt", "b\n");
    let patch = "*** Begin Patch\n*** Update File: a.txt\n-a\n+A\n*** End Patch";
    apply_patch(&mut root, patch).unwrap();
    assert_eq!(get(&root, "a.txt").as_deref(), Some("A\n"));
    assert_eq!(get(&root, "b.txt").as_deref(), Some("b\n"));
}

#[test]
fn splitting_and_joining_gives_the_text_back() {
    for content in ["", "\n", "a", "a\n", "a\nb", "a\n\nb\n", "\r\n", "a\r\nb\r\n", "a\r\r\nb"] {
        let split = split_content(content);
        assert_eq!(
            join_content(&split.lines, &split.ending, split.trailing_newline),
            content
        );
    }
    let mixed = split_content("a\r\nb\nc");
    assert_eq!(mixed.ending, "\r\n");
    assert_eq!(mixed.lines, ["a", "b", "c"]);
    assert!(!mixed.trailing_newline);
}

#[test]
fn a_hunk_is_looked_for_behind_the_one_before() {
    let hunks = vec![
        Hunk {
            old_lines: vec!["b".to_string()],
            new_lines: vec!["B".to_string(), "b".to_string()],
        },
        Hunk {
            old_lines: vec!["b".to_string()],
            new_lines: vec!["last".to_string()],
        },
    ];
    assert_eq!(apply_hunks("a\nb\nb\n", &hunks, "x").unwrap(), "a\nB\nb\nlast\n");
    assert_eq!(
        message(apply_hunks("a\nb\n", &hunks, "x").unwrap_err()),
        "patch could not be applied because the expected context in `x` no longer matches the file; read the file again and generate a new patch"
    );
}

#[test]
fn lines_are_found_at_or_after_a_place() {
    let lines: Vec<String> = ["a", "b", "a", "b"].iter().map(|s| s.to_string()).collect();
    let pair = vec!["a".to_string(), "b".to_string()];
    assert_eq!(find_subsequence(&lines, &pair, 0), Some(0));
    assert_eq!(find_subsequence(&lines, &pair, 1), Some(2));
    assert_eq!(find_subsequence(&lines, &pair, 3), None);
    assert_eq!(find_subsequence(&lines, &Vec::new(), 0), None);
    assert_eq!(find_subsequence(&pair, &lines, 0), None);
}

#[test]
fn a_directory_outlives_the_only_file_in_it() {
    let mut root = workspace("directories");
    let patch = "*** Begin Patch\n*** Add File: a/b\n+x\n*** Delete File: a/b\n*** Add File: a\n+y\n*** End Patch";
    assert!(apply_patch(&mut root, patch).is_err());
    assert_eq!(get(&root, "a/b"), None);
    assert_eq!(get(&root, "a"), None);
}

#[test]
fn a_section_behind_the_end_of_a_patch_is_empty() {
    let body: Vec<String> = Vec::new();
    assert_eq!(
        parse_hunks(&body, 7).unwrap_err(),
        ToolError::InvalidArguments("update section has no hunk content".to_string())
    );
    assert_eq!(parse_add_body(&body, 7), (Vec::new(), 7));
}

#[test]
fn a_file_that_is_no_text_is_deleted_but_not_updated() {
    let mut root = workspace("binary");
    root.note("/work/binary/logo", Stored::Unreadable("not UTF-8".to_string()));
    let patch = "*** Begin Patch\n*** Update File: logo\n-a\n+b\n*** End Patch";
    assert_eq!(
        apply_patch(&mut root, patch).unwrap_err(),
        ToolError::Io("could not read /work/binary/logo: not UTF-8".to_string())
    );
    assert!(root.holds_file("/work/binary/logo"));
    let patch = "*** Begin Patch\n*** Delete File: logo\n*** End Patch";
    assert_eq!(apply_patch(&mut root, patch).unwrap()[0].kind, ChangeKind::Deleted);
    assert!(!root.is_present("/work/binary/logo"));
}

#[test]
fn a_file_cannot_be_added_below_a_file() {
    let mut root = workspace("below");
    let patch = "*** Begin Patch\n*** Add File: a\n+x\n*** Add File: a/b\n+y\n*** End Patch";
    assert_eq!(
        apply_patch(&mut root, patch).unwrap_err(),
        ToolError::Io("could not create /work/below/a: a file is in the way".to_string())
    );
    assert_eq!(get(&root, "a").as_deref(), Some("x\n"));
    assert_eq!(get(&root, "a/b"), None);
}

#[test]
fn a_patch_names_its_files_in_order() {
    let patch = "*** Begin Patch\n*** Add File: n\n+x\n*** Delete File: d\n*** Update File: u\n-a\n+b\n*** End Patch";
    assert_eq!(named_files(patch), ["n", "d", "u"]);
    assert!(named_files("no patch").is_empty());
}
