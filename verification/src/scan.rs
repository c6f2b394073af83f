use vstd::prelude::*;

use rayon::iter::{IndexedParallelIterator, IntoParallelRefIterator, ParallelIterator};

use crate::backend::{
    branch_entries, emit_diagnostic, emit_report, error_message, graph_ahead_behind,
    open_repository, status_bits,
};
use crate::check::{
    build_warnings, diff_requests, is_clean, spec_diff_pairs, spec_warnings, warning_views,
    RepoReport,
};
use crate::err::ScanError;
use crate::stats::Statistics;
use crate::tips::{generate_remote_tips, generate_tips};

verus! {

/// Open the repository at `path` and classify its findings against
/// every configured remote, never touching any other repository.
///
/// What the backend reports depends on the disk, so the contract says
/// what holds of every outcome: a successful analysis carries the given
/// path, and its warnings are exactly the classification of some
/// snapshot of the repository's state: a cleanliness flag, local tips,
/// remote tips, and one ahead-distance per differing same-named pair.
pub fn analyze(path: &String) -> (r: Result<RepoReport, ScanError>)
    ensures
        match r {
            Ok(repo) => repo.path@ == path@ && exists|
                clean: bool,
                lv: Seq<(Seq<char>, Seq<u8>)>,
                rv: Seq<(Seq<char>, Seq<(Seq<char>, Seq<u8>)>)>,
                av: Seq<usize>,
            |
                av.len() == spec_diff_pairs(lv, rv).len() && warning_views(repo.warnings@)
                    == #[trigger] spec_warnings(clean, lv, rv, av),
            Err(e) => e is Git,
        },
{
    let repo = match open_repository(path) {
        Ok(r) => r,
        Err(e) => {
            return Err(ScanError::Git { message: error_message(&e) });
        },
    };
    let bits = match status_bits(&repo) {
        Ok(b) => b,
        Err(e) => {
            return Err(ScanError::Git { message: error_message(&e) });
        },
    };
    let clean = is_clean(&bits);
    let remote_branches = match branch_entries(&repo, true) {
        Ok(b) => b,
        Err(e) => {
            return Err(ScanError::Git { message: error_message(&e) });
        },
    };
    let local_branches = match branch_entries(&repo, false) {
        Ok(b) => b,
        Err(e) => {
            return Err(ScanError::Git { message: error_message(&e) });
        },
    };
    let remotes = generate_remote_tips(&remote_branches);
    let locals = generate_tips(&local_branches);
    let requests = diff_requests(&locals, &remotes);
    let mut aheads: Vec<usize> = Vec::new();
    let mut i: usize = 0;
    while i < requests.len()
        invariant
            i <= requests.len(),
            aheads@.len() == i,
        decreases requests.len() - i,
    {
        match graph_ahead_behind(&repo, &requests[i].0, &requests[i].1) {
            Ok(distances) => {
                aheads.push(distances.0);
            },
            Err(e) => {
                return Err(ScanError::Git { message: error_message(&e) });
            },
        }
        i = i + 1;
    }
    let warnings = build_warnings(clean, &locals, &remotes, &aheads);
    Ok(RepoReport { path: path.clone(), warnings })
}

/// Analyze one candidate and report at once: a repository with findings
/// prints its block, a failure prints a diagnostic line. The outcome is
/// handed back either way, for aggregation.
pub fn analyze_and_report(path: &String) -> (r: Result<RepoReport, ScanError>)
    ensures
        match r {
            Ok(repo) => repo.path@ == path@ && exists|
                clean: bool,
                lv: Seq<(Seq<char>, Seq<u8>)>,
                rv: Seq<(Seq<char>, Seq<(Seq<char>, Seq<u8>)>)>,
                av: Seq<usize>,
            |
                av.len() == spec_diff_pairs(lv, rv).len() && warning_views(repo.warnings@)
                    == #[trigger] spec_warnings(clean, lv, rv, av),
            Err(e) => e is Git,
        },
{
    match analyze(path) {
        Ok(repo) => {
            if repo.warnings.len() > 0 {
                let text = repo.render();
                emit_report(&text);
            }
            Ok(repo)
        },
        Err(e) => {
            let mut line = String::new();
            line.append("Error received: ");
            let text = e.describe();
            line.append(text.as_str());
            line.append("\n");
            emit_diagnostic(&line);
            Err(e)
        },
    }
}

/// Relies on rayon's parallel iteration over the candidate list: every
/// candidate is analyzed and reported by [`analyze_and_report`] on the
/// worker pool, each in isolation, and the outcomes come back one per
/// candidate, in the candidates' order (collecting an indexed parallel
/// iterator keeps length and order).
#[verifier::external_body]
fn par_analyze(paths: &Vec<String>) -> (r: Vec<Result<RepoReport, ScanError>>)
    ensures
        r@.len() == paths@.len(),
{
    paths.par_iter().map(|p| analyze_and_report(p)).collect()
}

/// What one outcome adds to the aggregate: a successful analysis its
/// statistics, a failed one nothing at all.
pub open spec fn spec_outcome_stats(o: Result<RepoReport, ScanError>) -> Statistics {
    match o {
        Ok(repo) => repo.spec_stats(),
        Err(_) => Statistics::zero(),
    }
}

/// The reduction of a batch of outcomes, left to right.
pub open spec fn spec_fold_outcomes(s: Seq<Result<RepoReport, ScanError>>) -> Statistics
    decreases s.len(),
{
    if s.len() == 0 {
        Statistics::zero()
    } else {
        spec_fold_outcomes(s.drop_last()).spec_combine(spec_outcome_stats(s.last()))
    }
}

/// Failure isolation: a failed repository can be struck from a batch
/// of outcomes without changing the aggregate at all — it counts toward
/// no tally, and the repositories around it are unaffected.
pub proof fn lemma_failed_outcome_dropped(s: Seq<Result<RepoReport, ScanError>>, i: int)
    requires
        0 <= i < s.len(),
        s[i] is Err,
    ensures
        spec_fold_outcomes(s) == spec_fold_outcomes(s.remove(i)),
    decreases s.len(),
{
    if i == s.len() - 1 {
        assert(s.remove(i) =~= s.drop_last());
        crate::stats::lemma_combine_identity(spec_fold_outcomes(s.drop_last()));
    } else {
        lemma_failed_outcome_dropped(s.drop_last(), i);
        assert(s.remove(i).drop_last() =~= s.drop_last().remove(i));
        assert(s.remove(i).last() == s.last());
    }
}

/// Reduce a batch of outcomes into one aggregate. A failed repository
/// is excluded outright: it counts toward no tally, and the remaining
/// repositories are unaffected.
pub fn fold_outcomes(outcomes: &Vec<Result<RepoReport, ScanError>>) -> (r: Statistics)
    ensures
        r == spec_fold_outcomes(outcomes@),
{
    let mut r = Statistics { warnings: 0, total_repos: 0, repos_with_warnings: 0, repos_no_warnings: 0 };
    let mut i: usize = 0;
    while i < outcomes.len()
        invariant
            i <= outcomes.len(),
            r == spec_fold_outcomes(outcomes@.subrange(0, i as int)),
        decreases outcomes.len() - i,
    {
        proof {
            assert(outcomes@.subrange(0, i + 1).drop_last() =~= outcomes@.subrange(0, i as int));
        }
        match &outcomes[i] {
            Ok(repo) => {
                let contribution = repo.get_stats();
                r = r.combine(contribution);
            },
            Err(_) => {
                r = r.combine(Statistics { warnings: 0, total_repos: 0, repos_with_warnings: 0, repos_no_warnings: 0 });
            },
        }
        i = i + 1;
    }
    proof {
        assert(outcomes@.subrange(0, outcomes@.len() as int) =~= outcomes@);
    }
    r
}

/// Scan every candidate path: analyze them all on the worker pool,
/// printing each non-empty report as it is found, then reduce the
/// outcomes into one aggregate; with `summarize`, print the aggregate
/// too. The result is the reduction of one outcome per candidate.
pub fn scan(paths: &Vec<String>, summarize: bool) -> (r: Statistics)
    ensures
        exists|outcomes: Seq<Result<RepoReport, ScanError>>|
            outcomes.len() == paths@.len() && r == #[trigger] spec_fold_outcomes(outcomes),
{
    let outcomes = par_analyze(paths);
    let stats = fold_outcomes(&outcomes);
    if summarize {
        let text = stats.render();
        emit_report(&text);
    }
    stats
}

} // verus!
