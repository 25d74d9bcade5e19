use rclean::artifact_path;
use rclean::clean_tree;
use rclean::collect_failures;
use rclean::run_sweep;
use rclean::EntryKind;
use rclean::FsEntry;
use rclean::FsTree;
use rclean::RequiredEntry;

fn entry(path: &str, kind: EntryKind) -> FsEntry {
    FsEntry { path: path.to_string(), kind }
}

fn rule(kind: EntryKind, name: &str) -> RequiredEntry {
    RequiredEntry { kind, name: name.to_string() }
}

fn project_rules() -> Vec<RequiredEntry> {
    vec![
        rule(EntryKind::File, "Cargo.toml"),
        rule(EntryKind::Folder, "src"),
        rule(EntryKind::Folder, "target"),
    ]
}

fn paths_of(tree: &FsTree) -> Vec<String> {
    tree.entries.iter().map(|e| e.path.clone()).collect()
}

#[test]
fn artifact_path_joins_with_separator() {
    assert_eq!(artifact_path(&"root".to_string()), "root/target");
    assert_eq!(artifact_path(&"a/b".to_string()), "a/b/target");
}

#[test]
fn scenario_clean_removes_only_the_artifact_folder() {
    let mut tree = FsTree {
        entries: vec![
            entry("root", EntryKind::Folder),
            entry("root/Cargo.toml", EntryKind::File),
            entry("root/src", EntryKind::Folder),
            entry("root/target", EntryKind::Folder),
            entry("root/target/file.o", EntryKind::File),
            entry("root/unrelated", EntryKind::Folder),
            entry("root/unrelated/notes.txt", EntryKind::File),
        ],
    };
    let (found, failures) = run_sweep(&mut tree, &project_rules(), false);
    assert_eq!(found, vec!["root"]);
    assert_eq!(failures.len(), 0);
    let left = paths_of(&tree);
    let expected = vec![
        "root",
        "root/Cargo.toml",
        "root/src",
        "root/unrelated",
        "root/unrelated/notes.txt",
    ];
    assert_eq!(left, expected);
}

#[test]
fn failed_removal_does_not_abort_the_batch() {
    // Directory `a` has no artifact folder, so its removal fails; the
    // artifact folder of `b` must still be removed and `b` must not be
    // reported as a failure.
    let mut tree = FsTree {
        entries: vec![
            entry("a", EntryKind::Folder),
            entry("b", EntryKind::Folder),
            entry("b/target", EntryKind::Folder),
            entry("b/target/file.o", EntryKind::File),
        ],
    };
    let dirs = vec!["a".to_string(), "b".to_string()];
    let failures = clean_tree(&mut tree, &dirs);
    assert_eq!(failures, vec!["a"]);
    assert_eq!(paths_of(&tree), vec!["a", "b"]);
}

#[test]
fn artifact_present_as_file_counts_as_failure() {
    // `a/target` exists but is a regular file: a recursive directory
    // removal fails on it and the snapshot stays unchanged.
    let mut tree = FsTree {
        entries: vec![entry("a", EntryKind::Folder), entry("a/target", EntryKind::File)],
    };
    let failures = clean_tree(&mut tree, &vec!["a".to_string()]);
    assert_eq!(failures, vec!["a"]);
    assert_eq!(paths_of(&tree), vec!["a", "a/target"]);
}

#[test]
fn every_directory_is_attempted_in_order() {
    let mut tree = FsTree {
        entries: vec![
            entry("a", EntryKind::Folder),
            entry("b", EntryKind::Folder),
            entry("b/target", EntryKind::Folder),
            entry("c", EntryKind::Folder),
        ],
    };
    let dirs = vec!["a".to_string(), "b".to_string(), "c".to_string()];
    let failures = clean_tree(&mut tree, &dirs);
    assert_eq!(failures, vec!["a", "c"]);
    assert_eq!(paths_of(&tree), vec!["a", "b", "c"]);
}

#[test]
fn dry_run_leaves_the_tree_untouched() {
    let mut tree = FsTree {
        entries: vec![
            entry("root", EntryKind::Folder),
            entry("root/Cargo.toml", EntryKind::File),
            entry("root/src", EntryKind::Folder),
            entry("root/target", EntryKind::Folder),
            entry("root/target/file.o", EntryKind::File),
        ],
    };
    let before = paths_of(&tree);
    let (found, failures) = run_sweep(&mut tree, &project_rules(), true);
    assert_eq!(found, vec!["root"]);
    assert_eq!(failures.len(), 0);
    assert_eq!(paths_of(&tree), before);
    assert!(tree.entries.iter().any(|e| e.path == "root/target"));
}

#[test]
fn nested_projects_clean_outer_first() {
    // The outer project's artifact folder holds the inner project; once
    // it is removed, the inner project's own removal fails and is
    // reported, while the batch still finishes.
    let mut tree = FsTree {
        entries: vec![
            entry("outer", EntryKind::Folder),
            entry("outer/Cargo.toml", EntryKind::File),
            entry("outer/src", EntryKind::Folder),
            entry("outer/target", EntryKind::Folder),
            entry("outer/target/inner", EntryKind::Folder),
            entry("outer/target/inner/Cargo.toml", EntryKind::File),
            entry("outer/target/inner/src", EntryKind::Folder),
            entry("outer/target/inner/target", EntryKind::Folder),
        ],
    };
    let (found, failures) = run_sweep(&mut tree, &project_rules(), false);
    assert_eq!(found, vec!["outer", "outer/target/inner"]);
    assert_eq!(failures, vec!["outer/target/inner"]);
    assert_eq!(
        paths_of(&tree),
        vec!["outer", "outer/Cargo.toml", "outer/src"]
    );
}

#[test]
fn collect_failures_pairs_each_cause_with_its_directory() {
    let dirs = vec!["a".to_string(), "b".to_string(), "c".to_string()];
    let outcomes = vec![None, Some("permission denied".to_string()), None];
    let failures = collect_failures(&dirs, &outcomes);
    assert_eq!(failures.len(), 1);
    assert_eq!(failures[0].path, "b");
    assert_eq!(failures[0].cause, "permission denied");
}

#[test]
fn collect_failures_keeps_every_failure_in_order() {
    let dirs = vec!["a".to_string(), "b".to_string(), "c".to_string()];
    let outcomes = vec![
        Some("not found".to_string()),
        None,
        Some("permission denied".to_string()),
    ];
    let failures = collect_failures(&dirs, &outcomes);
    assert_eq!(failures.len(), 2);
    assert_eq!(failures[0].path, "a");
    assert_eq!(failures[0].cause, "not found");
    assert_eq!(failures[1].path, "c");
    assert_eq!(failures[1].cause, "permission denied");
}

#[test]
fn collect_failures_reports_nothing_on_all_success() {
    let dirs = vec!["a".to_string(), "b".to_string()];
    let outcomes: Vec<Option<String>> = vec![None, None];
    let failures = collect_failures(&dirs, &outcomes);
    assert_eq!(failures.len(), 0);
}
