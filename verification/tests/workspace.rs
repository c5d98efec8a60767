use gocode::sorting::comes_before;
use gocode::tools::contract::ToolError;
use gocode::tools::path::{
    check_inside, extension_of, file_name_of, join_path, normalize_lexically, parent_of, rejoin,
    resolve_workspace_path, same_path, to_workspace_relative, Link, Workspace,
};
use gocode::tools::workspace::{discover, looks_binary, plan_write, WalkedEntry};

fn entry(path: &str, is_dir: bool) -> WalkedEntry {
    WalkedEntry {
        path: path.to_string(),
        is_dir,
    }
}

#[test]
fn relative_path_inside_workspace_resolves() {
    let resolved = resolve_workspace_path(&Workspace::new("/work/relative"), "src/main.rs").unwrap();
    assert!(resolved.ends_with("src/main.rs"));
}

#[test]
fn parent_traversal_outside_workspace_is_rejected() {
    let error = resolve_workspace_path(&Workspace::new("/work/traversal"), "../../secret.txt").unwrap_err();
    assert!(matches!(error, ToolError::OutsideWorkspace(_)));
}

#[test]
fn absolute_path_outside_workspace_is_rejected() {
    let error =
        resolve_workspace_path(&Workspace::new("/work/absolute-outside"), "/work/absolute-outside-target").unwrap_err();
    assert!(matches!(error, ToolError::OutsideWorkspace(_)));
}

#[test]
fn nested_relative_path_normalizes_dot_segments() {
    let resolved = resolve_workspace_path(&Workspace::new("/work/dot-segments"), "./src/../src/main.rs").unwrap();
    assert_eq!(resolved, "/work/dot-segments/src/main.rs");
}

#[test]
fn symlink_escaping_the_workspace_is_rejected() {
    // The existing part of `link/secret.txt` leads to another directory.
    let normalized = normalize_lexically("/work/symlink-escape/link/secret.txt");
    let resolved = rejoin(&normalized, "/work/symlink-escape-target", 1);
    assert_eq!(resolved, "/work/symlink-escape-target/secret.txt");
    let error = check_inside("/work/symlink-escape", resolved, normalized.clone()).unwrap_err();
    assert_eq!(error, ToolError::OutsideWorkspace(normalized));
}

#[test]
fn missing_file_still_resolves_for_future_creation() {
    let resolved = resolve_workspace_path(&Workspace::new("/work/missing-file"), "new/nested/file.txt").unwrap();
    assert!(resolved.starts_with("/work/missing-file"));
}

#[test]
fn null_bytes_are_detected_as_binary() {
    assert!(looks_binary(b"hello\0world"));
    assert!(!looks_binary(b"hello world"));
}

#[test]
fn a_late_null_byte_is_not_looked_for() {
    let mut content = vec![b'a'; 8000];
    content.push(0);
    assert!(!looks_binary(&content));
    content[7999] = 0;
    assert!(looks_binary(&content));
}

#[test]
fn discover_respects_gitignore_and_default_exclusions() {
    // A walk that honours the ignore file does not meet `target`.
    let walk = vec![
        entry("/work/discover", true),
        entry("/work/discover/.git", true),
        entry("/work/discover/.gitignore", false),
        entry("/work/discover/Cargo.toml", false),
        entry("/work/discover/.gocode", true),
        entry("/work/discover/.gocode/instructions.md", false),
    ];
    let entries = discover(&Workspace::new("/work/discover"), ".", true, &walk, 200).unwrap();
    let paths: Vec<_> = entries
        .iter()
        .map(|entry| entry.relative_path.clone())
        .collect();

    assert!(paths.contains(&"Cargo.toml".to_string()));
    assert!(!paths.iter().any(|path| path.starts_with("target")));
    assert!(!paths.iter().any(|path| path.starts_with(".gocode")));
    assert!(!paths
        .iter()
        .any(|path| path == ".git" || path.starts_with(".git/")));
    assert_eq!(paths, [".gitignore", "Cargo.toml"]);
}

#[test]
fn a_listing_stops_at_its_limit_and_is_sorted() {
    let walk = vec![
        entry("/w", true),
        entry("/w/b", false),
        entry("/w/c", true),
        entry("/w/a", false),
    ];
    let names = |limit: usize| -> Vec<String> {
        discover(&Workspace::new("/w"), ".", true, &walk, limit)
            .unwrap()
            .into_iter()
            .map(|e| e.relative_path)
            .collect()
    };
    assert_eq!(names(10), ["a", "b", "c"]);
    assert_eq!(names(2), ["b", "c"]);
    assert_eq!(names(0), ["b"]);
}

#[test]
fn a_listing_needs_a_place_that_exists() {
    assert_eq!(
        discover(&Workspace::new("/w"), "gone", false, &Vec::new(), 10).unwrap_err(),
        ToolError::NotFound("/w/gone".to_string())
    );
    assert!(matches!(
        discover(&Workspace::new("/w"), "..", true, &Vec::new(), 10).unwrap_err(),
        ToolError::OutsideWorkspace(_)
    ));
    assert!(matches!(
        discover(&Workspace::new("/w"), " ", true, &Vec::new(), 10).unwrap_err(),
        ToolError::InvalidArguments(_)
    ));
}

#[test]
fn a_file_is_written_under_another_name_first() {
    let plan = plan_write("/work/atomic-write/nested/output.txt", 42, "7").unwrap();
    assert_eq!(plan.parent.as_deref(), Some("/work/atomic-write/nested"));
    assert_eq!(
        plan.temp_path,
        "/work/atomic-write/nested/.output.txt.42-7.tmp"
    );
    let plan = plan_write("output.txt", 1, "2").unwrap();
    assert_eq!(plan.parent, None);
    assert_eq!(plan.temp_path, ".output.txt.1-2.tmp");
    assert_eq!(
        plan_write("/", 1, "2").unwrap_err(),
        ToolError::Io("/ has no file name".to_string())
    );
}

#[test]
fn paths_are_taken_apart_by_component() {
    assert_eq!(file_name_of("/a/b.txt").as_deref(), Some("b.txt"));
    assert_eq!(file_name_of("/a/.."), None);
    assert_eq!(file_name_of("/"), None);
    assert_eq!(parent_of("/a/b").as_deref(), Some("/a"));
    assert_eq!(parent_of("a").as_deref(), Some(""));
    assert_eq!(parent_of("/"), None);
    assert_eq!(extension_of("x/archive.tar.gz").as_deref(), Some("gz"));
    assert_eq!(extension_of(".bashrc"), None);
    assert!(same_path("/a//b/./c/", "/a/b/c"));
    assert!(!same_path("a/b", "/a/b"));
    assert!(!same_path("a/../b", "b"));
    assert_eq!(join_path("/a", "b"), "/a/b");
    assert_eq!(join_path("/a/", "b"), "/a/b");
    assert_eq!(join_path("/a", "/b"), "/b");
    assert_eq!(join_path("", "b"), "b");
}

#[test]
fn paths_are_shown_relative_to_the_workspace() {
    assert_eq!(to_workspace_relative("/w", "/w/src/main.rs"), "src/main.rs");
    assert_eq!(to_workspace_relative("/w", "/other/a\\b"), "/other/a/b");
}

#[test]
fn texts_are_ordered_by_their_characters() {
    assert!(comes_before("a", "b"));
    assert!(comes_before("a", "aa"));
    assert!(!comes_before("a", "a"));
    assert!(comes_before("Z", "a"));
    assert!(comes_before("z", "é"));
}

#[test]
fn a_listing_shows_where_a_link_leads() {
    let mut workspace = Workspace::new("/w");
    workspace.links.push(Link { path: "/w/link".to_string(), target: "/w/real".to_string() });
    let walk = vec![entry("/w/link", false), entry("/w/a", false)];
    let found = discover(&workspace, ".", true, &walk, 10).unwrap();
    let names: Vec<String> = found.into_iter().map(|e| e.relative_path).collect();
    assert_eq!(names, ["a", "real"]);
}

#[test]
fn missing_names_are_joined_to_the_root_directory() {
    assert_eq!(rejoin("/x", "/", 1), "/x");
    assert_eq!(rejoin("/a/b/c", "/real", 2), "/real/b/c");
}
