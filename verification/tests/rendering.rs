use git_project::check::{RepoReport, Warning};
use git_project::err::ScanError;
use git_project::report::{i32_to_string, usize_to_string};
use git_project::stats::Statistics;

#[test]
fn numbers_render_in_decimal() {
    assert_eq!(usize_to_string(0), "0");
    assert_eq!(usize_to_string(7), "7");
    assert_eq!(usize_to_string(10), "10");
    assert_eq!(usize_to_string(1234567890), "1234567890");
    assert_eq!(i32_to_string(0), "0");
    assert_eq!(i32_to_string(42), "42");
    assert_eq!(i32_to_string(-42), "-42");
    assert_eq!(i32_to_string(i32::MIN), "-2147483648");
}

#[test]
fn warnings_render_their_diagnosis() {
    assert_eq!(Warning::NoRemotes.describe(), "no remotes configured");
    assert_eq!(
        Warning::DirtyWorkingDir.describe(),
        "working directory has changes not checked in",
    );
    let ahead = Warning::LocalCommitsNotOnRemote {
        remote: "origin".to_string(),
        branch: "main".to_string(),
        ahead_by: 3,
    };
    assert_eq!(ahead.describe(), "local branch main ahead of origin/main by 3 commits");
    let missing = Warning::LocalBranchNotOnRemote {
        remote: "origin".to_string(),
        branch: "feature".to_string(),
    };
    assert_eq!(missing.describe(), "local branch feature does not exist on remote origin");
}

#[test]
fn report_blocks_list_each_warning_indented() {
    let repo = RepoReport {
        path: "/work/project".to_string(),
        warnings: vec![
            Warning::DirtyWorkingDir,
            Warning::LocalBranchNotOnRemote {
                remote: "origin".to_string(),
                branch: "dev".to_string(),
            },
        ],
    };
    assert_eq!(
        repo.render(),
        "/work/project\n  - working directory has changes not checked in\n  - local branch dev does not exist on remote origin\n",
    );
}

#[test]
fn report_block_of_a_quiet_repository_is_just_its_path() {
    let repo = RepoReport { path: "/work/quiet".to_string(), warnings: vec![] };
    assert_eq!(repo.render(), "/work/quiet\n");
}

#[test]
fn summary_lists_every_tally() {
    let stats = Statistics {
        warnings: 5,
        total_repos: 4,
        repos_with_warnings: 3,
        repos_no_warnings: 1,
    };
    assert_eq!(
        stats.render(),
        "---- Summary ---\nWarnings: 5\nScanned repositories: 4\nRepositories with warnings: 3\nRepositories with no warnings: 1\n",
    );
}

#[test]
fn errors_describe_themselves() {
    assert_eq!(ScanError::InvalidUrl.describe(), "Invalid URL");
    assert_eq!(ScanError::NoHost.describe(), "URL is required to have a host");
    assert_eq!(
        ScanError::NonDomainHost.describe(),
        "URL host is required to be a domain name",
    );
    assert_eq!(
        ScanError::Io { message: "denied".to_string() }.describe(),
        "I/O Error: denied",
    );
    assert_eq!(
        ScanError::Git { message: "bad repo".to_string() }.describe(),
        "Git library Error: bad repo",
    );
    assert_eq!(
        ScanError::Walk { message: "loop".to_string() }.describe(),
        "Error walking directory tree: loop",
    );
    assert_eq!(
        ScanError::SubcommandFailed { code: Some(3) }.describe(),
        "Subcommand failed with exit code 3",
    );
    assert_eq!(
        ScanError::SubcommandFailed { code: Some(-1) }.describe(),
        "Subcommand failed with exit code -1",
    );
    assert_eq!(ScanError::SubcommandFailed { code: None }.describe(), "Subcommand failed");
}
