use vstd::prelude::*;

verus! {

/// Aggregate counts over a batch of scanned repositories.
///
/// `Statistics` forms a commutative monoid under [`Statistics::combine`]
/// with [`Statistics::zero`] as identity, so a batch of per-repository
/// contributions can be reduced in any order, split into any chunks,
/// and still produce the same totals.
#[derive(Clone, Copy, Debug, PartialEq, Eq, Structural)]
pub struct Statistics {
    pub warnings: usize,
    pub total_repos: usize,
    pub repos_with_warnings: usize,
    pub repos_no_warnings: usize,
}

/// Addition clamped at `usize::MAX`, so that combining statistics can
/// never panic whatever the inputs are.
pub open spec fn spec_sat_add(a: usize, b: usize) -> usize {
    if a + b <= usize::MAX {
        (a + b) as usize
    } else {
        usize::MAX
    }
}

fn sat_add(a: usize, b: usize) -> (r: usize)
    ensures
        r == spec_sat_add(a, b),
{
    if a <= usize::MAX - b {
        a + b
    } else {
        usize::MAX
    }
}

impl Statistics {
    /// The identity element of the aggregation: no repositories seen yet.
    pub open spec fn zero() -> Statistics {
        Statistics { warnings: 0, total_repos: 0, repos_with_warnings: 0, repos_no_warnings: 0 }
    }

    pub open spec fn spec_combine(self, other: Statistics) -> Statistics {
        Statistics {
            warnings: spec_sat_add(self.warnings, other.warnings),
            total_repos: spec_sat_add(self.total_repos, other.total_repos),
            repos_with_warnings: spec_sat_add(self.repos_with_warnings, other.repos_with_warnings),
            repos_no_warnings: spec_sat_add(self.repos_no_warnings, other.repos_no_warnings),
        }
    }

    /// Field-wise addition (clamped at `usize::MAX`).
    pub fn combine(self, other: Statistics) -> (r: Statistics)
        ensures
            r == self.spec_combine(other),
    {
        Statistics {
            warnings: sat_add(self.warnings, other.warnings),
            total_repos: sat_add(self.total_repos, other.total_repos),
            repos_with_warnings: sat_add(self.repos_with_warnings, other.repos_with_warnings),
            repos_no_warnings: sat_add(self.repos_no_warnings, other.repos_no_warnings),
        }
    }

    /// Reduction of a whole sequence of contributions, left to right.
    pub open spec fn spec_sum(s: Seq<Statistics>) -> Statistics
        decreases s.len(),
    {
        if s.len() == 0 {
            Statistics::zero()
        } else {
            Statistics::spec_sum(s.drop_last()).spec_combine(s.last())
        }
    }

    /// Add up every entry of `v`.
    pub fn sum(v: &Vec<Statistics>) -> (r: Statistics)
        ensures
            r == Statistics::spec_sum(v@),
    {
        let mut r = Statistics { warnings: 0, total_repos: 0, repos_with_warnings: 0, repos_no_warnings: 0 };
        let mut i: usize = 0;
        while i < v.len()
            invariant
                i <= v.len(),
                r == Statistics::spec_sum(v@.subrange(0, i as int)),
            decreases v.len() - i,
        {
            r = r.combine(v[i]);
            proof {
                assert(v@.subrange(0, i + 1 as int).drop_last() =~= v@.subrange(0, i as int));
            }
            i = i + 1;
        }
        proof {
            assert(v@.subrange(0, v@.len() as int) =~= v@);
        }
        r
    }
}

impl Default for Statistics {
    /// Same identity element as [`Statistics::zero`].
    fn default() -> (r: Statistics)
        ensures
            r == Statistics::zero(),
    {
        Statistics { warnings: 0, total_repos: 0, repos_with_warnings: 0, repos_no_warnings: 0 }
    }
}

/// `zero` is the identity of `combine`.
pub proof fn lemma_combine_identity(a: Statistics)
    ensures
        Statistics::zero().spec_combine(a) == a,
        a.spec_combine(Statistics::zero()) == a,
{
}

/// `combine` is commutative: either order of two contributions gives the
/// same aggregate.
pub proof fn lemma_combine_commutative(a: Statistics, b: Statistics)
    ensures
        a.spec_combine(b) == b.spec_combine(a),
{
}

/// `combine` is associative: how a reduction is parenthesized does not
/// change the aggregate.
pub proof fn lemma_combine_associative(a: Statistics, b: Statistics, c: Statistics)
    ensures
        a.spec_combine(b).spec_combine(c) == a.spec_combine(b.spec_combine(c)),
{
}

/// Splitting a batch into two chunks, reducing each, and combining the two
/// partial aggregates gives the same result as reducing the whole batch:
/// the reduction is insensitive to how work is divided among workers.
pub proof fn lemma_sum_append(a: Seq<Statistics>, b: Seq<Statistics>)
    ensures
        Statistics::spec_sum(a + b) == Statistics::spec_sum(a).spec_combine(Statistics::spec_sum(b)),
    decreases b.len(),
{
    if b.len() == 0 {
        assert(a + b =~= a);
        lemma_combine_identity(Statistics::spec_sum(a));
    } else {
        lemma_sum_append(a, b.drop_last());
        assert((a + b).drop_last() =~= a + b.drop_last());
        assert((a + b).last() == b.last());
        lemma_combine_associative(
            Statistics::spec_sum(a),
            Statistics::spec_sum(b.drop_last()),
            b.last(),
        );
    }
}

/// Removing one entry from a batch and combining it back in afterwards
/// gives the same aggregate as reducing the batch directly.
pub proof fn lemma_sum_remove(s: Seq<Statistics>, i: int)
    requires
        0 <= i < s.len(),
    ensures
        Statistics::spec_sum(s) == Statistics::spec_sum(s.remove(i)).spec_combine(s[i]),
    decreases s.len(),
{
    if i == s.len() - 1 {
        assert(s.remove(i) =~= s.drop_last());
    } else {
        lemma_sum_remove(s.drop_last(), i);
        assert(s.remove(i).drop_last() =~= s.drop_last().remove(i));
        assert(s.remove(i).last() == s.last());
        let rest = Statistics::spec_sum(s.drop_last().remove(i));
        lemma_combine_associative(rest, s[i], s.last());
        lemma_combine_commutative(s[i], s.last());
        lemma_combine_associative(rest, s.last(), s[i]);
    }
}

/// Order independence: two batches holding the same contributions, in any
/// order, reduce to the same aggregate.
pub proof fn lemma_sum_permutation(a: Seq<Statistics>, b: Seq<Statistics>)
    requires
        a.to_multiset() == b.to_multiset(),
    ensures
        Statistics::spec_sum(a) == Statistics::spec_sum(b),
    decreases a.len(),
{
    broadcast use vstd::seq_lib::group_to_multiset_ensures;

    a.to_multiset_ensures();
    b.to_multiset_ensures();
    if a.len() == 0 {
        assert(b.to_multiset().len() == 0);
    } else {
        let x = a.last();
        let ai = a.len() - 1;
        assert(a[ai] == x);
        assert(a.to_multiset().count(x) > 0);
        assert(b.to_multiset().count(x) > 0);
        assert(b.contains(x));
        let bi = choose|bi: int| 0 <= bi < b.len() && b[bi] == x;
        lemma_sum_remove(a, ai);
        lemma_sum_remove(b, bi);
        assert(a.remove(ai).to_multiset() =~= a.to_multiset().remove(x));
        assert(b.remove(bi).to_multiset() =~= b.to_multiset().remove(x));
        lemma_sum_permutation(a.remove(ai), b.remove(bi));
    }
}

} // verus!
