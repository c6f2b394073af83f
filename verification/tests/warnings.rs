use git_project::check::{build_warnings, diff_requests, is_clean, Warning};
use git_project::tips::{generate_remote_tips, generate_tips, lookup_tip, split_ref_name, CommitId};

fn cid(b: u8) -> CommitId {
    CommitId { bytes: vec![b; 20] }
}

fn locals_of(entries: &[(&str, u8)]) -> Vec<(String, CommitId)> {
    entries.iter().map(|(n, b)| (n.to_string(), cid(*b))).collect()
}

fn remotes_of(groups: &[(&str, &[(&str, u8)])]) -> Vec<(String, Vec<(String, CommitId)>)> {
    groups.iter().map(|(r, tips)| (r.to_string(), locals_of(tips))).collect()
}

#[test]
fn synced_repository_warns_about_nothing() {
    // One local branch at the same tip as its only remote counterpart,
    // clean tree, one remote: nothing to report.
    let locals = locals_of(&[("main", 1)]);
    let remotes = remotes_of(&[("origin", &[("main", 1)])]);
    assert!(diff_requests(&locals, &remotes).is_empty());
    let warnings = build_warnings(true, &locals, &remotes, &vec![]);
    assert!(warnings.is_empty());
}

#[test]
fn ahead_branch_is_classified_with_its_distance() {
    // Local main three commits ahead of origin/main: exactly one
    // ahead-warning, and no missing-branch warning for that pair.
    let locals = locals_of(&[("main", 1)]);
    let remotes = remotes_of(&[("origin", &[("main", 2)])]);
    let requests = diff_requests(&locals, &remotes);
    assert_eq!(requests.len(), 1);
    assert_eq!(requests[0].0, cid(1));
    assert_eq!(requests[0].1, cid(2));
    let warnings = build_warnings(true, &locals, &remotes, &vec![3]);
    assert_eq!(
        warnings,
        vec![Warning::LocalCommitsNotOnRemote {
            remote: "origin".to_string(),
            branch: "main".to_string(),
            ahead_by: 3,
        }],
    );
}

#[test]
fn behind_branch_is_not_flagged() {
    // Tips differ but the local side is not ahead at all: merely being
    // behind the remote is deliberately no warning.
    let locals = locals_of(&[("main", 1)]);
    let remotes = remotes_of(&[("origin", &[("main", 2)])]);
    let warnings = build_warnings(true, &locals, &remotes, &vec![0]);
    assert!(warnings.is_empty());
}

#[test]
fn missing_remote_branch_is_flagged() {
    // Local main and feature, origin tracking only main: exactly one
    // missing-branch warning, for feature.
    let locals = locals_of(&[("main", 1), ("feature", 2)]);
    let remotes = remotes_of(&[("origin", &[("main", 1)])]);
    assert!(diff_requests(&locals, &remotes).is_empty());
    let warnings = build_warnings(true, &locals, &remotes, &vec![]);
    assert_eq!(
        warnings,
        vec![Warning::LocalBranchNotOnRemote {
            remote: "origin".to_string(),
            branch: "feature".to_string(),
        }],
    );
}

#[test]
fn no_remotes_is_flagged_and_reconciliation_stays_quiet() {
    // Zero remotes: the no-remotes warning appears whatever the
    // branches look like, and the cross product contributes nothing.
    let locals = locals_of(&[("main", 1), ("feature", 2)]);
    let remotes = remotes_of(&[]);
    let warnings = build_warnings(true, &locals, &remotes, &vec![]);
    assert_eq!(warnings, vec![Warning::NoRemotes]);

    let dirty = build_warnings(false, &locals, &remotes, &vec![]);
    assert_eq!(dirty, vec![Warning::DirtyWorkingDir, Warning::NoRemotes]);
}

#[test]
fn cross_product_covers_every_remote() {
    // Two locals against two remotes: every pair is examined, in
    // branch-then-remote order.
    let locals = locals_of(&[("main", 1), ("feature", 2)]);
    let remotes = remotes_of(&[("origin", &[("main", 1)]), ("backup", &[("main", 9), ("feature", 2)])]);
    let requests = diff_requests(&locals, &remotes);
    assert_eq!(requests.len(), 1);
    assert_eq!(requests[0].0, cid(1));
    assert_eq!(requests[0].1, cid(9));
    let warnings = build_warnings(true, &locals, &remotes, &vec![2]);
    assert_eq!(
        warnings,
        vec![
            Warning::LocalCommitsNotOnRemote {
                remote: "backup".to_string(),
                branch: "main".to_string(),
                ahead_by: 2,
            },
            Warning::LocalBranchNotOnRemote {
                remote: "origin".to_string(),
                branch: "feature".to_string(),
            },
        ],
    );
}

#[test]
fn dirty_tree_is_flagged_first() {
    let locals = locals_of(&[("main", 1)]);
    let remotes = remotes_of(&[("origin", &[("main", 1)])]);
    let warnings = build_warnings(false, &locals, &remotes, &vec![]);
    assert_eq!(warnings, vec![Warning::DirtyWorkingDir]);
}

#[test]
fn status_words_decide_cleanliness() {
    assert!(is_clean(&vec![]));
    assert!(is_clean(&vec![0, 0, 0]));
    assert!(!is_clean(&vec![0, 128, 0]));
}

#[test]
fn tracking_names_split_at_the_first_separator() {
    let (remote, branch) = split_ref_name(&"origin/main".to_string());
    assert_eq!(remote, "origin");
    assert_eq!(branch, "main");

    let (remote, branch) = split_ref_name(&"origin/feature/x".to_string());
    assert_eq!(remote, "origin");
    assert_eq!(branch, "feature/x");

    let (remote, branch) = split_ref_name(&"origin".to_string());
    assert_eq!(remote, "origin");
    assert_eq!(branch, "");
}

#[test]
fn tip_maps_skip_unresolvable_and_keep_the_later_tip() {
    let listing = vec![
        Some(("main".to_string(), cid(1))),
        None,
        Some(("dev".to_string(), cid(2))),
        Some(("main".to_string(), cid(3))),
    ];
    let tips = generate_tips(&listing);
    assert_eq!(tips.len(), 2);
    assert_eq!(tips[0].0, "main");
    assert_eq!(tips[0].1, cid(3));
    assert_eq!(tips[1].0, "dev");
    assert_eq!(tips[1].1, cid(2));
    assert_eq!(lookup_tip(&tips, &"main".to_string()), Some(&cid(3)));
    assert_eq!(lookup_tip(&tips, &"gone".to_string()), None);
}

#[test]
fn remote_tips_group_by_remote() {
    let listing = vec![
        Some(("origin/main".to_string(), cid(1))),
        Some(("backup/main".to_string(), cid(2))),
        None,
        Some(("origin/dev".to_string(), cid(3))),
    ];
    let groups = generate_remote_tips(&listing);
    assert_eq!(groups.len(), 2);
    assert_eq!(groups[0].0, "origin");
    assert_eq!(groups[0].1.len(), 2);
    assert_eq!(groups[0].1[0], ("main".to_string(), cid(1)));
    assert_eq!(groups[0].1[1], ("dev".to_string(), cid(3)));
    assert_eq!(groups[1].0, "backup");
    assert_eq!(groups[1].1, vec![("main".to_string(), cid(2))]);
}

#[test]
fn tracking_name_without_separator_keeps_an_empty_branch_name() {
    let listing = vec![Some(("origin".to_string(), cid(1)))];
    let groups = generate_remote_tips(&listing);
    assert_eq!(groups.len(), 1);
    assert_eq!(groups[0].0, "origin");
    assert_eq!(groups[0].1, vec![("".to_string(), cid(1))]);
}
