use vstd::prelude::*;

use crate::seqtools::{lemma_concat_assoc, lemma_concat_empty};

verus! {

/// The depth ceiling of the traversal: a guard against runaway descent
/// into pathological directory structures (cycles of links, extremely
/// deep trees). Descent silently stops at this depth; nothing fails.
pub const MAX_DEPTH: usize = 100;

/// An in-memory picture of one directory: its name, and its
/// subdirectories in listing order. Plain files play no part in
/// discovery and are not represented.
#[derive(Debug)]
pub struct DirNode {
    pub name: String,
    pub dirs: Vec<DirNode>,
}

/// A discovered repository root: its path as segments relative to the
/// scanned base directory, empty when the base itself is the root.
#[derive(Debug)]
pub struct RepoPath {
    pub segments: Vec<String>,
}

/// The contents of a list of path segments, as plain sequences.
pub open spec fn seg_views(s: Seq<String>) -> Seq<Seq<char>> {
    s.map_values(|x: String| x@)
}

/// The contents of a discovered path.
pub open spec fn path_view(p: RepoPath) -> Seq<Seq<char>> {
    seg_views(p.segments@)
}

/// The contents of a list of discovered paths.
pub open spec fn path_views(s: Seq<RepoPath>) -> Seq<Seq<Seq<char>>> {
    s.map_values(|p: RepoPath| path_view(p))
}

/// The repository roots recorded while scanning the children `dirs` of a
/// directory standing at `depth`, whose path from the base is `prefix`;
/// in traversal order.
///
/// A child named `.git` marks the current directory as a repository
/// root. Under shallow traversal that ends the scan of this directory at
/// once: later siblings are not examined. Under deep traversal the scan
/// goes on, so nested repositories are found too. Any other child is
/// descended into, except at the depth ceiling; the metadata directory
/// itself is never descended into.
pub open spec fn spec_walk(
    dirs: Seq<DirNode>,
    depth: int,
    shallow: bool,
    prefix: Seq<Seq<char>>,
) -> Seq<Seq<Seq<char>>>
    decreases MAX_DEPTH - depth, dirs.len(),
{
    if dirs.len() == 0 {
        Seq::empty()
    } else {
        let child = dirs[0];
        let rest = dirs.drop_first();
        if child.name@ == ".git"@ {
            if shallow {
                seq![prefix]
            } else {
                seq![prefix] + spec_walk(rest, depth, shallow, prefix)
            }
        } else {
            let sub = if depth < MAX_DEPTH {
                spec_walk(child.dirs@, depth + 1, shallow, prefix.push(child.name@))
            } else {
                Seq::empty()
            };
            sub + spec_walk(rest, depth, shallow, prefix)
        }
    }
}

/// Whether a directory named `.git` stands anywhere among `dirs` or
/// below them, within `fuel` further levels of descent.
pub open spec fn has_marker(dirs: Seq<DirNode>, fuel: int) -> bool
    decreases fuel, dirs.len(),
{
    if dirs.len() == 0 {
        false
    } else {
        dirs[0].name@ == ".git"@ || (fuel > 0 && has_marker(dirs[0].dirs@, fuel - 1))
            || has_marker(dirs.drop_first(), fuel)
    }
}

/// A tree with no metadata directory anywhere within reach of the
/// traversal yields nothing, however deep the tree goes: the depth
/// ceiling already makes the walk terminate, and this says it also
/// reports no repository. Reach at `depth` is one level more than the
/// levels of descent that remain under the ceiling.
pub proof fn lemma_no_marker_no_repos(
    dirs: Seq<DirNode>,
    depth: int,
    shallow: bool,
    prefix: Seq<Seq<char>>,
)
    requires
        0 <= depth <= MAX_DEPTH,
        !has_marker(dirs, MAX_DEPTH + 1 - depth),
    ensures
        spec_walk(dirs, depth, shallow, prefix) == Seq::<Seq<Seq<char>>>::empty(),
    decreases MAX_DEPTH - depth, dirs.len(),
{
    if dirs.len() == 0 {
    } else {
        let child = dirs[0];
        let rest = dirs.drop_first();
        assert(child.name@ != ".git"@);
        if depth < MAX_DEPTH {
            lemma_no_marker_no_repos(child.dirs@, depth + 1, shallow, prefix.push(child.name@));
        }
        lemma_no_marker_no_repos(rest, depth, shallow, prefix);
        assert(Seq::<Seq<Seq<char>>>::empty() + Seq::<Seq<Seq<char>>>::empty()
            =~= Seq::<Seq<Seq<char>>>::empty());
    }
}

/// Whether this name is the version-control metadata directory's.
fn is_dotgit(name: &String) -> (r: bool)
    ensures
        r == (name@ == ".git"@),
{
    proof {
        reveal_strlit(".git");
    }
    let s = name.as_str();
    if s.unicode_len() != 4 {
        return false;
    }
    let r = s.get_char(0) == '.' && s.get_char(1) == 'g' && s.get_char(2) == 'i' && s.get_char(3)
        == 't';
    proof {
        if r {
            assert(name@ =~= ".git"@);
        }
    }
    r
}

/// A fresh copy of a segment list.
fn dup_segments(prefix: &Vec<String>) -> (r: Vec<String>)
    ensures
        seg_views(r@) == seg_views(prefix@),
{
    let mut r: Vec<String> = Vec::new();
    let mut i: usize = 0;
    while i < prefix.len()
        invariant
            i <= prefix.len(),
            r@.len() == i,
            forall|j: int| 0 <= j < i ==> r@[j]@ == prefix@[j]@,
        decreases prefix.len() - i,
    {
        r.push(prefix[i].clone());
        i = i + 1;
    }
    proof {
        assert(seg_views(r@) =~= seg_views(prefix@));
    }
    r
}

/// The scan of one directory's children, appending what it finds to
/// `out`. `prefix` is the current directory's path from the base.
fn collect_git_folders(
    node: &DirNode,
    depth: usize,
    shallow: bool,
    prefix: &Vec<String>,
    out: &mut Vec<RepoPath>,
)
    requires
        depth <= MAX_DEPTH,
    ensures
        path_views(final(out)@) == path_views(old(out)@) + spec_walk(
            node.dirs@,
            depth as int,
            shallow,
            seg_views(prefix@),
        ),
    decreases MAX_DEPTH - depth,
{
    let ghost dirs = node.dirs@;
    let ghost pfx = seg_views(prefix@);
    let ghost start = path_views(out@);
    let mut k: usize = 0;
    proof {
        assert(dirs.subrange(0, dirs.len() as int) =~= dirs);
    }
    while k < node.dirs.len()
        invariant
            k <= node.dirs.len(),
            depth <= MAX_DEPTH,
            dirs == node.dirs@,
            pfx == seg_views(prefix@),
            start == path_views(old(out)@),
            start + spec_walk(dirs, depth as int, shallow, pfx) == path_views(out@) + spec_walk(
                dirs.subrange(k as int, dirs.len() as int),
                depth as int,
                shallow,
                pfx,
            ),
        decreases node.dirs.len() - k,
    {
        let ghost suffix = dirs.subrange(k as int, dirs.len() as int);
        let ghost before = path_views(out@);
        proof {
            assert(suffix[0] == dirs[k as int]);
            assert(suffix.drop_first() =~= dirs.subrange(k + 1, dirs.len() as int));
        }
        let child = &node.dirs[k];
        if is_dotgit(&child.name) {
            let found = RepoPath { segments: dup_segments(prefix) };
            proof {
                assert(path_view(found) == pfx);
            }
            out.push(found);
            proof {
                assert(path_views(out@) =~= before.push(pfx));
                assert(before + seq![pfx] =~= before.push(pfx));
            }
            if shallow {
                proof {
                    assert(spec_walk(suffix, depth as int, shallow, pfx) == seq![pfx]);
                }
                return ;
            }
            proof {
                lemma_concat_assoc(
                    before,
                    seq![pfx],
                    spec_walk(suffix.drop_first(), depth as int, shallow, pfx),
                );
            }
        } else {
            if depth < MAX_DEPTH {
                let mut child_prefix = dup_segments(prefix);
                child_prefix.push(child.name.clone());
                proof {
                    assert(seg_views(child_prefix@) =~= pfx.push(child.name@));
                }
                collect_git_folders(child, depth + 1, shallow, &child_prefix, out);
                proof {
                    lemma_concat_assoc(
                        before,
                        spec_walk(child.dirs@, depth + 1, shallow, pfx.push(child.name@)),
                        spec_walk(suffix.drop_first(), depth as int, shallow, pfx),
                    );
                }
            } else {
                proof {
                    assert(Seq::<Seq<Seq<char>>>::empty() + spec_walk(
                        suffix.drop_first(),
                        depth as int,
                        shallow,
                        pfx,
                    ) =~= spec_walk(suffix.drop_first(), depth as int, shallow, pfx));
                }
            }
        }
        k = k + 1;
    }
    proof {
        assert(dirs.subrange(dirs.len() as int, dirs.len() as int) =~= Seq::<DirNode>::empty());
        lemma_concat_empty(path_views(out@));
        lemma_concat_empty(start + spec_walk(dirs, depth as int, shallow, pfx));
    }
}

/// Every repository root at or below the scanned directory, in
/// traversal order: a directory whose children include one named `.git`.
/// Shallow traversal (the default) stops scanning a directory the
/// moment it proves to be a repository root; deep traversal keeps
/// descending, so repositories nested inside repositories are found
/// too. Descent stops silently at the depth ceiling.
pub fn find_git_folders(root: &DirNode, deep_recurse: bool) -> (r: Vec<RepoPath>)
    ensures
        path_views(r@) == spec_walk(root.dirs@, 0, !deep_recurse, Seq::empty()),
{
    let mut out: Vec<RepoPath> = Vec::new();
    let prefix: Vec<String> = Vec::new();
    proof {
        assert(seg_views(prefix@) =~= Seq::<Seq<char>>::empty());
        assert(path_views(out@) =~= Seq::<Seq<Seq<char>>>::empty());
    }
    collect_git_folders(root, 0, !deep_recurse, &prefix, &mut out);
    proof {
        assert(Seq::<Seq<Seq<char>>>::empty() + spec_walk(root.dirs@, 0, !deep_recurse, Seq::empty())
            =~= spec_walk(root.dirs@, 0, !deep_recurse, Seq::empty()));
    }
    out
}

} // verus!
