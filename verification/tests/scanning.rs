use git_project::check::Warning;
use git_project::err::ScanError;
use git_project::scan::{analyze, scan};
use git_project::stats::Statistics;

fn unique_path(tag: &str) -> String {
    let nanos = std::time::SystemTime::now()
        .duration_since(std::time::UNIX_EPOCH)
        .unwrap()
        .as_nanos();
    format!("/tmp/git_project_{}_{}", tag, nanos)
}

fn init_with_one_commit(path: &str) -> (git2::Repository, git2::Oid) {
    let repo = git2::Repository::init(path).unwrap();
    let sig = git2::Signature::now("tester", "tester@example.com").unwrap();
    let tree_id = {
        let mut builder = repo.treebuilder(None).unwrap();
        builder.write().unwrap()
    };
    let first = {
        let tree = repo.find_tree(tree_id).unwrap();
        repo.commit(Some("HEAD"), &sig, &sig, "one", &tree, &[]).unwrap()
    };
    (repo, first)
}

#[test]
fn missing_repository_is_a_git_error() {
    let outcome = analyze(&"/this/path/should/not/exist".to_string());
    assert!(matches!(outcome, Err(ScanError::Git { .. })));
}

#[test]
fn fresh_repository_reports_only_missing_remotes() {
    let path = unique_path("fresh");
    let _ = git2::Repository::init(&path).unwrap();
    let report = analyze(&path).unwrap();
    assert_eq!(report.path, path);
    assert_eq!(report.warnings, vec![Warning::NoRemotes]);
}

#[test]
fn synced_repository_reports_nothing() {
    let path = unique_path("synced");
    let (repo, first) = init_with_one_commit(&path);
    repo.reference("refs/remotes/origin/master", first, true, "test").unwrap();
    let report = analyze(&path).unwrap();
    assert!(report.warnings.is_empty());
}

#[test]
fn ahead_repository_reports_its_distance() {
    let path = unique_path("ahead");
    let (repo, first) = init_with_one_commit(&path);
    let sig = git2::Signature::now("tester", "tester@example.com").unwrap();
    let tree_id = {
        let mut builder = repo.treebuilder(None).unwrap();
        builder.write().unwrap()
    };
    {
        let tree = repo.find_tree(tree_id).unwrap();
        let parent = repo.find_commit(first).unwrap();
        repo.commit(Some("HEAD"), &sig, &sig, "two", &tree, &[&parent]).unwrap();
    }
    repo.reference("refs/remotes/origin/master", first, true, "test").unwrap();
    let report = analyze(&path).unwrap();
    assert_eq!(
        report.warnings,
        vec![Warning::LocalCommitsNotOnRemote {
            remote: "origin".to_string(),
            branch: "master".to_string(),
            ahead_by: 1,
        }],
    );
}

#[test]
fn tracking_branch_without_local_counterpart() {
    // The reconciliation runs local branches against remotes, never the
    // other way: a tracking branch with no local counterpart is quiet.
    let path = unique_path("missing_local");
    let (repo, first) = init_with_one_commit(&path);
    repo.reference("refs/remotes/origin/master", first, true, "test").unwrap();
    repo.reference("refs/remotes/origin/elsewhere", first, true, "test").unwrap();
    let report = analyze(&path).unwrap();
    assert!(report.warnings.is_empty());
}

#[test]
fn scanning_nothing_yields_the_identity() {
    let stats = scan(&vec![], false);
    let zero: Statistics = Default::default();
    assert_eq!(stats, zero);
}

#[test]
fn failed_candidates_are_dropped_by_the_scan() {
    let good = unique_path("scan_good");
    let _ = git2::Repository::init(&good).unwrap();
    let paths = vec!["/this/path/should/not/exist".to_string(), good];
    let stats = scan(&paths, false);
    assert_eq!(stats.total_repos, 1);
    assert_eq!(stats.repos_with_warnings, 1);
}
