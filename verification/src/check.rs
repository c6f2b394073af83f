use vstd::prelude::*;

use crate::stats::Statistics;
use crate::tips::{
    spec_lookup, tip_views, remote_views, lookup_tip, LocalTips, RemoteTips, CommitId,
};
use crate::seqtools::{lemma_concat_push, lemma_concat_empty, lemma_concat_assoc};

verus! {

/// One actionable finding about a repository.
#[derive(Debug)]
pub enum Warning {
    /// The repository has no configured remotes at all.
    NoRemotes,
    /// The working tree holds uncommitted or untracked changes.
    DirtyWorkingDir,
    /// A local branch and the same-named branch on `remote` point at
    /// different commits, with the local tip strictly ahead.
    LocalCommitsNotOnRemote { remote: String, branch: String, ahead_by: usize },
    /// A local branch with no counterpart at all under `remote`.
    LocalBranchNotOnRemote { remote: String, branch: String },
}

/// The content of a [`Warning`], as plain sequences.
pub enum WarningV {
    NoRemotes,
    DirtyWorkingDir,
    LocalCommitsNotOnRemote { remote: Seq<char>, branch: Seq<char>, ahead_by: usize },
    LocalBranchNotOnRemote { remote: Seq<char>, branch: Seq<char> },
}

impl View for Warning {
    type V = WarningV;

    open spec fn view(&self) -> WarningV {
        match self {
            Warning::NoRemotes => WarningV::NoRemotes,
            Warning::DirtyWorkingDir => WarningV::DirtyWorkingDir,
            Warning::LocalCommitsNotOnRemote { remote, branch, ahead_by } =>
                WarningV::LocalCommitsNotOnRemote {
                    remote: remote@,
                    branch: branch@,
                    ahead_by: *ahead_by,
                },
            Warning::LocalBranchNotOnRemote { remote, branch } =>
                WarningV::LocalBranchNotOnRemote { remote: remote@, branch: branch@ },
        }
    }
}

/// The contents of a warning list, as plain sequences.
pub open spec fn warning_views(s: Seq<Warning>) -> Seq<WarningV> {
    s.map_values(|w: Warning| w@)
}

impl PartialEq for Warning {
    fn eq(&self, other: &Warning) -> (r: bool) {
        match (self, other) {
            (Warning::NoRemotes, Warning::NoRemotes) => true,
            (Warning::DirtyWorkingDir, Warning::DirtyWorkingDir) => true,
            (
                Warning::LocalCommitsNotOnRemote { remote: r1, branch: b1, ahead_by: a1 },
                Warning::LocalCommitsNotOnRemote { remote: r2, branch: b2, ahead_by: a2 },
            ) => *r1 == *r2 && *b1 == *b2 && *a1 == *a2,
            (
                Warning::LocalBranchNotOnRemote { remote: r1, branch: b1 },
                Warning::LocalBranchNotOnRemote { remote: r2, branch: b2 },
            ) => *r1 == *r2 && *b1 == *b2,
            _ => false,
        }
    }
}

impl vstd::std_specs::cmp::PartialEqSpecImpl for Warning {
    open spec fn obeys_eq_spec() -> bool {
        true
    }

    open spec fn eq_spec(&self, other: &Warning) -> bool {
        self@ == other@
    }
}

/// One scanned repository's report: where it lives and what was found there.
#[derive(Debug)]
pub struct RepoReport {
    pub path: String,
    pub warnings: Vec<Warning>,
}

impl RepoReport {
    /// This repository's contribution to the aggregate statistics.
    pub open spec fn spec_stats(self) -> Statistics {
        Statistics {
            warnings: self.warnings@.len() as usize,
            total_repos: 1,
            repos_with_warnings: if self.warnings@.len() == 0 {
                0
            } else {
                1
            },
            repos_no_warnings: if self.warnings@.len() == 0 {
                1
            } else {
                0
            },
        }
    }

    /// Count this repository once, under the tally matching whether it
    /// has any warnings.
    pub fn get_stats(&self) -> (r: Statistics)
        ensures
            r == self.spec_stats(),
    {
        let empty = self.warnings.len() == 0;
        let repos_with_warnings: usize = if empty {
            0
        } else {
            1
        };
        let repos_no_warnings: usize = if empty {
            1
        } else {
            0
        };
        Statistics {
            warnings: self.warnings.len(),
            total_repos: 1,
            repos_with_warnings,
            repos_no_warnings,
        }
    }
}

/// The warnings that do not depend on branch comparison: a dirty working
/// tree, and the absence of any remote.
pub open spec fn spec_base_warnings(
    clean: bool,
    remotes: Seq<(Seq<char>, Seq<(Seq<char>, Seq<u8>)>)>,
) -> Seq<WarningV> {
    (if !clean {
        seq![WarningV::DirtyWorkingDir]
    } else {
        Seq::empty()
    }) + (if remotes.len() == 0 {
        seq![WarningV::NoRemotes]
    } else {
        Seq::empty()
    })
}

/// One local branch held against every remote, in order. `start` is the
/// position in `aheads` of the next ahead-distance to consume; a remote
/// with a same-named branch at a different tip consumes one distance, and
/// warns exactly when that distance is positive. A remote with no
/// same-named branch warns unconditionally.
pub open spec fn spec_cross_remotes(
    branch: Seq<char>,
    tip: Seq<u8>,
    remotes: Seq<(Seq<char>, Seq<(Seq<char>, Seq<u8>)>)>,
    aheads: Seq<usize>,
    start: int,
) -> (Seq<WarningV>, int)
    decreases remotes.len(),
{
    if remotes.len() == 0 {
        (Seq::empty(), start)
    } else {
        let p = spec_cross_remotes(branch, tip, remotes.drop_last(), aheads, start);
        let group = remotes.last();
        match spec_lookup(group.1, branch) {
            None => (
                p.0 + seq![WarningV::LocalBranchNotOnRemote { remote: group.0, branch }],
                p.1,
            ),
            Some(rtip) => if rtip == tip {
                p
            } else if 0 <= p.1 < aheads.len() {
                if aheads[p.1] > 0 {
                    (
                        p.0 + seq![
                            WarningV::LocalCommitsNotOnRemote {
                                remote: group.0,
                                branch,
                                ahead_by: aheads[p.1],
                            },
                        ],
                        p.1 + 1,
                    )
                } else {
                    (p.0, p.1 + 1)
                }
            } else {
                (p.0, p.1)
            },
        }
    }
}

/// Every local branch held against every remote, branches outermost.
pub open spec fn spec_cross_locals(
    locals: Seq<(Seq<char>, Seq<u8>)>,
    remotes: Seq<(Seq<char>, Seq<(Seq<char>, Seq<u8>)>)>,
    aheads: Seq<usize>,
    start: int,
) -> (Seq<WarningV>, int)
    decreases locals.len(),
{
    if locals.len() == 0 {
        (Seq::empty(), start)
    } else {
        let p = spec_cross_locals(locals.drop_last(), remotes, aheads, start);
        let b = locals.last();
        let c = spec_cross_remotes(b.0, b.1, remotes, aheads, p.1);
        (p.0 + c.0, c.1)
    }
}

/// Everything [`build_warnings`] reports, in order: working-tree and
/// remote-presence findings first, then the branch reconciliation.
pub open spec fn spec_warnings(
    clean: bool,
    locals: Seq<(Seq<char>, Seq<u8>)>,
    remotes: Seq<(Seq<char>, Seq<(Seq<char>, Seq<u8>)>)>,
    aheads: Seq<usize>,
) -> Seq<WarningV> {
    spec_base_warnings(clean, remotes) + spec_cross_locals(locals, remotes, aheads, 0).0
}

/// Classify one repository's findings from a snapshot of its state:
/// whether the working tree is clean, the local branch tips, the
/// remote-tracking tips grouped by remote, and the ahead-distances for
/// the same-named pairs whose tips differ, in the order
/// [`diff_requests`] lists them.
pub fn build_warnings(
    clean: bool,
    locals: &LocalTips,
    remotes: &RemoteTips,
    aheads: &Vec<usize>,
) -> (r: Vec<Warning>)
    ensures
        warning_views(r@) == spec_warnings(clean, tip_views(locals@), remote_views(remotes@), aheads@),
{
    let ghost lv = tip_views(locals@);
    let ghost rv = remote_views(remotes@);
    let ghost base = spec_base_warnings(clean, rv);
    let mut warnings: Vec<Warning> = Vec::new();
    if !clean {
        warnings.push(Warning::DirtyWorkingDir);
    }
    if remotes.len() == 0 {
        warnings.push(Warning::NoRemotes);
    }
    proof {
        assert(warning_views(warnings@) =~= base);
        assert(lv.subrange(0, 0) =~= Seq::empty());
        lemma_concat_empty(base);
    }
    let mut pos: usize = 0;
    let mut i: usize = 0;
    while i < locals.len()
        invariant
            i <= locals.len(),
            lv == tip_views(locals@),
            rv == remote_views(remotes@),
            base == spec_base_warnings(clean, rv),
            warning_views(warnings@) == base + spec_cross_locals(
                lv.subrange(0, i as int),
                rv,
                aheads@,
                0,
            ).0,
            pos as int == spec_cross_locals(lv.subrange(0, i as int), rv, aheads@, 0).1,
        decreases locals.len() - i,
    {
        let ghost p = spec_cross_locals(lv.subrange(0, i as int), rv, aheads@, 0);
        let mut j: usize = 0;
        proof {
            assert(rv.subrange(0, 0) =~= Seq::empty());
            lemma_concat_empty(base + p.0);
        }
        while j < remotes.len()
            invariant
                i < locals.len(),
                j <= remotes.len(),
                lv == tip_views(locals@),
                rv == remote_views(remotes@),
                base == spec_base_warnings(clean, rv),
                p == spec_cross_locals(lv.subrange(0, i as int), rv, aheads@, 0),
                warning_views(warnings@) == base + p.0 + spec_cross_remotes(
                    lv[i as int].0,
                    lv[i as int].1,
                    rv.subrange(0, j as int),
                    aheads@,
                    p.1,
                ).0,
                pos as int == spec_cross_remotes(
                    lv[i as int].0,
                    lv[i as int].1,
                    rv.subrange(0, j as int),
                    aheads@,
                    p.1,
                ).1,
            decreases remotes.len() - j,
        {
            let ghost q = spec_cross_remotes(
                lv[i as int].0,
                lv[i as int].1,
                rv.subrange(0, j as int),
                aheads@,
                p.1,
            );
            proof {
                assert(rv.subrange(0, j + 1).drop_last() =~= rv.subrange(0, j as int));
                assert(rv.subrange(0, j + 1).last() == rv[j as int]);
            }
            match lookup_tip(&remotes[j].1, &locals[i].0) {
                Some(rtip) => {
                    if *rtip == locals[i].1 {
                        // tips agree: nothing to report for this pair
                    } else {
                        if pos < aheads.len() {
                            let a = aheads[pos];
                            pos = pos + 1;
                            if a > 0 {
                                warnings.push(
                                    Warning::LocalCommitsNotOnRemote {
                                        remote: remotes[j].0.clone(),
                                        branch: locals[i].0.clone(),
                                        ahead_by: a,
                                    },
                                );
                                proof {
                                    let w = WarningV::LocalCommitsNotOnRemote {
                                        remote: rv[j as int].0,
                                        branch: lv[i as int].0,
                                        ahead_by: aheads@[q.1],
                                    };
                                    assert(spec_cross_remotes(
                                        lv[i as int].0,
                                        lv[i as int].1,
                                        rv.subrange(0, j + 1),
                                        aheads@,
                                        p.1,
                                    ).0 == q.0 + seq![w]);
                                    assert(warning_views(warnings@) =~= (base + p.0 + q.0).push(w));
                                    lemma_concat_push(base + p.0, q.0, w);
                                }
                            }
                        }
                    }
                },
                None => {
                    warnings.push(
                        Warning::LocalBranchNotOnRemote {
                            remote: remotes[j].0.clone(),
                            branch: locals[i].0.clone(),
                        },
                    );
                    proof {
                        let w = WarningV::LocalBranchNotOnRemote {
                            remote: rv[j as int].0,
                            branch: lv[i as int].0,
                        };
                        assert(spec_cross_remotes(
                            lv[i as int].0,
                            lv[i as int].1,
                            rv.subrange(0, j + 1),
                            aheads@,
                            p.1,
                        ).0 == q.0 + seq![w]);
                        assert(warning_views(warnings@) =~= (base + p.0 + q.0).push(w));
                        lemma_concat_push(base + p.0, q.0, w);
                    }
                },
            }
            j = j + 1;
        }
        proof {
            assert(rv.subrange(0, rv.len() as int) =~= rv);
            assert(lv.subrange(0, i + 1).drop_last() =~= lv.subrange(0, i as int));
            assert(lv.subrange(0, i + 1).last() == lv[i as int]);
            let c = spec_cross_remotes(lv[i as int].0, lv[i as int].1, rv, aheads@, p.1);
            lemma_concat_assoc(base, p.0, c.0);
        }
        i = i + 1;
    }
    proof {
        assert(lv.subrange(0, lv.len() as int) =~= lv);
    }
    warnings
}

/// The pairs of commit tips whose ahead-distance the backend must
/// compute: for each local branch and each remote holding a same-named
/// branch at a different tip, the local and remote tips, in the order
/// the reconciliation visits them.
pub open spec fn spec_diff_pairs_remotes(
    branch: Seq<char>,
    tip: Seq<u8>,
    remotes: Seq<(Seq<char>, Seq<(Seq<char>, Seq<u8>)>)>,
) -> Seq<(Seq<u8>, Seq<u8>)>
    decreases remotes.len(),
{
    if remotes.len() == 0 {
        Seq::empty()
    } else {
        let p = spec_diff_pairs_remotes(branch, tip, remotes.drop_last());
        match spec_lookup(remotes.last().1, branch) {
            Some(rtip) => if rtip == tip {
                p
            } else {
                p + seq![(tip, rtip)]
            },
            None => p,
        }
    }
}

/// [`spec_diff_pairs_remotes`] over every local branch, branches
/// outermost.
pub open spec fn spec_diff_pairs(
    locals: Seq<(Seq<char>, Seq<u8>)>,
    remotes: Seq<(Seq<char>, Seq<(Seq<char>, Seq<u8>)>)>,
) -> Seq<(Seq<u8>, Seq<u8>)>
    decreases locals.len(),
{
    if locals.len() == 0 {
        Seq::empty()
    } else {
        spec_diff_pairs(locals.drop_last(), remotes) + spec_diff_pairs_remotes(
            locals.last().0,
            locals.last().1,
            remotes,
        )
    }
}

/// The contents of a list of tip pairs, as plain sequences.
pub open spec fn pair_views(s: Seq<(CommitId, CommitId)>) -> Seq<(Seq<u8>, Seq<u8>)> {
    s.map_values(|p: (CommitId, CommitId)| (p.0@, p.1@))
}

/// List the (local tip, remote tip) pairs whose ahead-distance is needed,
/// in the order the reconciliation visits them.
pub fn diff_requests(locals: &LocalTips, remotes: &RemoteTips) -> (r: Vec<(CommitId, CommitId)>)
    ensures
        pair_views(r@) == spec_diff_pairs(tip_views(locals@), remote_views(remotes@)),
{
    let ghost lv = tip_views(locals@);
    let ghost rv = remote_views(remotes@);
    let mut r: Vec<(CommitId, CommitId)> = Vec::new();
    proof {
        assert(lv.subrange(0, 0) =~= Seq::empty());
        assert(pair_views(r@) =~= Seq::empty());
    }
    let mut i: usize = 0;
    while i < locals.len()
        invariant
            i <= locals.len(),
            lv == tip_views(locals@),
            rv == remote_views(remotes@),
            pair_views(r@) == spec_diff_pairs(lv.subrange(0, i as int), rv),
        decreases locals.len() - i,
    {
        let ghost p = spec_diff_pairs(lv.subrange(0, i as int), rv);
        let mut j: usize = 0;
        proof {
            assert(rv.subrange(0, 0) =~= Seq::empty());
            lemma_concat_empty(p);
        }
        while j < remotes.len()
            invariant
                i < locals.len(),
                j <= remotes.len(),
                lv == tip_views(locals@),
                rv == remote_views(remotes@),
                p == spec_diff_pairs(lv.subrange(0, i as int), rv),
                pair_views(r@) == p + spec_diff_pairs_remotes(
                    lv[i as int].0,
                    lv[i as int].1,
                    rv.subrange(0, j as int),
                ),
            decreases remotes.len() - j,
        {
            proof {
                assert(rv.subrange(0, j + 1).drop_last() =~= rv.subrange(0, j as int));
                assert(rv.subrange(0, j + 1).last() == rv[j as int]);
            }
            match lookup_tip(&remotes[j].1, &locals[i].0) {
                Some(rtip) => {
                    if *rtip == locals[i].1 {
                        // tips agree: no distance needed
                    } else {
                        let local_tip = locals[i].1.duplicate();
                        let remote_tip = rtip.duplicate();
                        r.push((local_tip, remote_tip));
                        proof {
                            let xx = (lv[i as int].1, rtip@);
                            let before = spec_diff_pairs_remotes(
                                lv[i as int].0,
                                lv[i as int].1,
                                rv.subrange(0, j as int),
                            );
                            assert(spec_diff_pairs_remotes(
                                lv[i as int].0,
                                lv[i as int].1,
                                rv.subrange(0, j + 1),
                            ) == before + seq![xx]);
                            assert(pair_views(r@) =~= (p + before).push(xx));
                            lemma_concat_push(p, before, xx);
                        }
                    }
                },
                None => {},
            }
            j = j + 1;
        }
        proof {
            assert(rv.subrange(0, rv.len() as int) =~= rv);
            assert(lv.subrange(0, i + 1).drop_last() =~= lv.subrange(0, i as int));
            assert(lv.subrange(0, i + 1).last() == lv[i as int]);
        }
        i = i + 1;
    }
    proof {
        assert(lv.subrange(0, lv.len() as int) =~= lv);
    }
    r
}

/// Holding one branch against an empty remote list reports nothing and
/// consumes no ahead-distances.
proof fn lemma_empty_remotes_cross(
    locals: Seq<(Seq<char>, Seq<u8>)>,
    aheads: Seq<usize>,
    start: int,
)
    ensures
        spec_cross_locals(locals, Seq::empty(), aheads, start) == (
            Seq::<WarningV>::empty(),
            start,
        ),
    decreases locals.len(),
{
    if locals.len() == 0 {
    } else {
        lemma_empty_remotes_cross(locals.drop_last(), aheads, start);
        assert(Seq::<WarningV>::empty() + Seq::<WarningV>::empty()
            =~= Seq::<WarningV>::empty());
    }
}

/// With no remotes configured at all, the report is exactly the base
/// findings — the dirty-tree warning when the tree is dirty, then the
/// no-remotes warning — whatever the branches look like: the
/// reconciliation of local branches against remotes contributes
/// nothing, and the no-remotes warning is always among the findings.
pub proof fn lemma_no_remotes_warnings(
    clean: bool,
    locals: Seq<(Seq<char>, Seq<u8>)>,
    aheads: Seq<usize>,
)
    ensures
        spec_warnings(clean, locals, Seq::empty(), aheads) == spec_base_warnings(
            clean,
            Seq::empty(),
        ),
        spec_warnings(clean, locals, Seq::empty(), aheads).contains(WarningV::NoRemotes),
{
    lemma_empty_remotes_cross(locals, aheads, 0);
    lemma_concat_empty(spec_base_warnings(clean, Seq::<(Seq<char>, Seq<(Seq<char>, Seq<u8>)>)>::empty()));
    let base = spec_base_warnings(clean, Seq::<(Seq<char>, Seq<(Seq<char>, Seq<u8>)>)>::empty());
    assert(base[base.len() - 1] == WarningV::NoRemotes);
}

/// An empty report pins the repository down: the working tree was
/// clean, at least one remote is configured, and the reconciliation
/// found nothing to flag.
pub proof fn lemma_no_warnings(
    clean: bool,
    locals: Seq<(Seq<char>, Seq<u8>)>,
    remotes: Seq<(Seq<char>, Seq<(Seq<char>, Seq<u8>)>)>,
    aheads: Seq<usize>,
)
    requires
        spec_warnings(clean, locals, remotes, aheads).len() == 0,
    ensures
        clean,
        remotes.len() > 0,
        spec_cross_locals(locals, remotes, aheads, 0).0.len() == 0,
{
}

/// Holding one branch against remotes that all record the same tip for
/// it reports nothing and consumes no ahead-distances.
proof fn lemma_synced_cross_remotes(
    branch: Seq<char>,
    tip: Seq<u8>,
    remotes: Seq<(Seq<char>, Seq<(Seq<char>, Seq<u8>)>)>,
    aheads: Seq<usize>,
    start: int,
)
    requires
        forall|j: int| 0 <= j < remotes.len() ==> spec_lookup(remotes[j].1, branch) == Some(tip),
    ensures
        spec_cross_remotes(branch, tip, remotes, aheads, start) == (
            Seq::<WarningV>::empty(),
            start,
        ),
    decreases remotes.len(),
{
    if remotes.len() == 0 {
    } else {
        assert(forall|j: int|
            0 <= j < remotes.drop_last().len() ==> remotes.drop_last()[j] == remotes[j]);
        lemma_synced_cross_remotes(branch, tip, remotes.drop_last(), aheads, start);
        assert(spec_lookup(remotes.last().1, branch) == Some(tip));
    }
}

/// Every local branch held against such remotes, likewise.
proof fn lemma_synced_cross_locals(
    locals: Seq<(Seq<char>, Seq<u8>)>,
    remotes: Seq<(Seq<char>, Seq<(Seq<char>, Seq<u8>)>)>,
    aheads: Seq<usize>,
    start: int,
)
    requires
        forall|i: int, j: int|
            0 <= i < locals.len() && 0 <= j < remotes.len() ==> spec_lookup(
                remotes[j].1,
                locals[i].0,
            ) == Some(locals[i].1),
    ensures
        spec_cross_locals(locals, remotes, aheads, start) == (Seq::<WarningV>::empty(), start),
    decreases locals.len(),
{
    if locals.len() == 0 {
    } else {
        assert(forall|i: int|
            0 <= i < locals.drop_last().len() ==> locals.drop_last()[i] == locals[i]);
        lemma_synced_cross_locals(locals.drop_last(), remotes, aheads, start);
        let b = locals.last();
        assert(b == locals[locals.len() - 1]);
        lemma_synced_cross_remotes(b.0, b.1, remotes, aheads, start);
        assert(Seq::<WarningV>::empty() + Seq::<WarningV>::empty()
            =~= Seq::<WarningV>::empty());
    }
}

/// A clean repository with at least one remote, whose every local
/// branch stands at the same tip under every remote, warns about
/// nothing at all.
pub proof fn lemma_all_synced_no_warnings(
    locals: Seq<(Seq<char>, Seq<u8>)>,
    remotes: Seq<(Seq<char>, Seq<(Seq<char>, Seq<u8>)>)>,
    aheads: Seq<usize>,
)
    requires
        remotes.len() > 0,
        forall|i: int, j: int|
            0 <= i < locals.len() && 0 <= j < remotes.len() ==> spec_lookup(
                remotes[j].1,
                locals[i].0,
            ) == Some(locals[i].1),
    ensures
        spec_warnings(true, locals, remotes, aheads).len() == 0,
{
    lemma_synced_cross_locals(locals, remotes, aheads, 0);
}

/// Whether every working-tree entry is in the unmodified state. The
/// backend reports one status word per entry; zero means unmodified.
pub fn is_clean(status_bits: &Vec<u32>) -> (r: bool)
    ensures
        r == (forall|i: int| 0 <= i < status_bits@.len() ==> status_bits@[i] == 0),
{
    let mut i: usize = 0;
    while i < status_bits.len()
        invariant
            i <= status_bits.len(),
            forall|j: int| 0 <= j < i ==> status_bits@[j] == 0,
        decreases status_bits.len() - i,
    {
        if status_bits[i] != 0 {
            return false;
        }
        i = i + 1;
    }
    true
}

} // verus!
