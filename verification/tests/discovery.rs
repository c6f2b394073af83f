use git_project::explore::{find_git_folders, DirNode};

fn dir(name: &str, dirs: Vec<DirNode>) -> DirNode {
    DirNode { name: name.to_string(), dirs }
}

fn segs(r: &git_project::explore::RepoPath) -> Vec<String> {
    r.segments.clone()
}

#[test]
fn deep_tree_without_markers_finds_nothing() {
    // A chain far deeper than the ceiling, with no metadata directory
    // anywhere: discovery terminates and reports nothing.
    let mut node = dir("leaf", vec![]);
    for _ in 0..150 {
        node = dir("level", vec![node]);
    }
    let root = dir("base", vec![node]);
    assert_eq!(find_git_folders(&root, false).len(), 0);
    assert_eq!(find_git_folders(&root, true).len(), 0);
}

#[test]
fn repository_beyond_ceiling_is_not_found() {
    // The same chain with a repository at the bottom: it stands beyond
    // the ceiling, so descent stops before reaching it.
    let mut node = dir("repo", vec![dir(".git", vec![])]);
    for _ in 0..150 {
        node = dir("level", vec![node]);
    }
    let root = dir("base", vec![node]);
    assert_eq!(find_git_folders(&root, true).len(), 0);
}

#[test]
fn repository_within_ceiling_is_found() {
    let repo = dir("repo", vec![dir(".git", vec![])]);
    let root = dir("base", vec![dir("a", vec![dir("b", vec![repo])])]);
    let found = find_git_folders(&root, false);
    assert_eq!(found.len(), 1);
    assert_eq!(segs(&found[0]), vec!["a", "b", "repo"]);
}

#[test]
fn shallow_returns_outer_deep_returns_both() {
    // A repository holding a nested repository: shallow discovery stops
    // at the outer root, deep discovery reports both.
    let nested = dir("nested", vec![dir(".git", vec![])]);
    let outer = dir("outer", vec![dir(".git", vec![]), nested]);
    let root = dir("base", vec![outer]);

    let shallow = find_git_folders(&root, false);
    assert_eq!(shallow.len(), 1);
    assert_eq!(segs(&shallow[0]), vec!["outer"]);

    let deep = find_git_folders(&root, true);
    assert_eq!(deep.len(), 2);
    assert_eq!(segs(&deep[0]), vec!["outer"]);
    assert_eq!(segs(&deep[1]), vec!["outer", "nested"]);
}

#[test]
fn shallow_mode_still_scans_siblings_listed_before_the_marker() {
    // Siblings that stand before the metadata directory in listing
    // order are examined before the directory proves to be a
    // repository: the nested repository inside them is still reported.
    let nested = dir("nested", vec![dir(".git", vec![])]);
    let outer = dir("outer", vec![nested, dir(".git", vec![])]);
    let root = dir("base", vec![outer]);

    let shallow = find_git_folders(&root, false);
    assert_eq!(shallow.len(), 2);
    assert_eq!(segs(&shallow[0]), vec!["outer", "nested"]);
    assert_eq!(segs(&shallow[1]), vec!["outer"]);
}

#[test]
fn base_itself_as_repository() {
    // The scanned directory's own metadata directory marks the base
    // itself: the discovered path has no segments.
    let root = dir("base", vec![dir(".git", vec![]), dir("child", vec![dir(".git", vec![])])]);
    let shallow = find_git_folders(&root, false);
    assert_eq!(shallow.len(), 1);
    assert!(segs(&shallow[0]).is_empty());

    let deep = find_git_folders(&root, true);
    assert_eq!(deep.len(), 2);
}

#[test]
fn empty_tree_finds_nothing() {
    let root = dir("base", vec![]);
    assert!(find_git_folders(&root, false).is_empty());
}
