use git_project::check::{RepoReport, Warning};
use git_project::err::ScanError;
use git_project::scan::fold_outcomes;
use git_project::stats::Statistics;

fn stats(w: usize, t: usize, with: usize, without: usize) -> Statistics {
    Statistics { warnings: w, total_repos: t, repos_with_warnings: with, repos_no_warnings: without }
}

fn report(path: &str, warning_count: usize) -> RepoReport {
    let warnings = (0..warning_count).map(|_| Warning::NoRemotes).collect();
    RepoReport { path: path.to_string(), warnings }
}

#[test]
fn combination_is_field_wise_addition() {
    let a = stats(2, 3, 1, 2);
    let b = stats(5, 7, 4, 3);
    assert_eq!(a.combine(b), stats(7, 10, 5, 5));
}

#[test]
fn combination_is_order_independent() {
    // The same contributions in any permutation, and in any chunking,
    // reduce to the same aggregate.
    let a = stats(1, 1, 1, 0);
    let b = stats(0, 1, 0, 1);
    let c = stats(4, 1, 1, 0);
    let d = stats(0, 2, 0, 2);

    assert_eq!(a.combine(b), b.combine(a));
    assert_eq!(a.combine(b).combine(c), a.combine(b.combine(c)));

    let every_order = [
        vec![a, b, c, d],
        vec![d, c, b, a],
        vec![b, d, a, c],
        vec![c, a, d, b],
    ];
    let expected = stats(5, 5, 2, 3);
    for order in &every_order {
        assert_eq!(Statistics::sum(order), expected);
    }

    // Chunked as two workers would split it.
    let left = Statistics::sum(&vec![a, b]);
    let right = Statistics::sum(&vec![c, d]);
    assert_eq!(left.combine(right), expected);
    let left = Statistics::sum(&vec![a]);
    let right = Statistics::sum(&vec![b, c, d]);
    assert_eq!(left.combine(right), expected);
}

#[test]
fn identity_changes_nothing() {
    let a = stats(2, 3, 1, 2);
    let zero: Statistics = Default::default();
    assert_eq!(zero.combine(a), a);
    assert_eq!(a.combine(zero), a);
    assert_eq!(Statistics::sum(&vec![]), zero);
}

#[test]
fn saturation_instead_of_overflow() {
    let big = stats(usize::MAX, 1, 1, 0);
    let more = stats(2, 1, 1, 0);
    let combined = big.combine(more);
    assert_eq!(combined.warnings, usize::MAX);
    assert_eq!(combined.total_repos, 2);
}

#[test]
fn report_contributions_count_one_repository_each() {
    let with = report("/a", 3);
    assert_eq!(with.get_stats(), stats(3, 1, 1, 0));
    let without = report("/b", 0);
    assert_eq!(without.get_stats(), stats(0, 1, 0, 1));
}

#[test]
fn failed_repositories_are_excluded_from_the_aggregate() {
    // Three candidates, the second fails: the aggregate reflects
    // exactly two scanned repositories, and the third is unaffected.
    let outcomes: Vec<Result<RepoReport, ScanError>> = vec![
        Ok(report("/one", 2)),
        Err(ScanError::Git { message: "could not open".to_string() }),
        Ok(report("/three", 0)),
    ];
    let total = fold_outcomes(&outcomes);
    assert_eq!(total, stats(2, 2, 1, 1));
}

#[test]
fn empty_batch_reduces_to_the_identity() {
    let outcomes: Vec<Result<RepoReport, ScanError>> = vec![];
    assert_eq!(fold_outcomes(&outcomes), stats(0, 0, 0, 0));
}
