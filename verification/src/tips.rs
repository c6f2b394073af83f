use vstd::prelude::*;

verus! {

/// An opaque, equality-comparable commit identifier: the raw bytes of the
/// backend's object id. Two identifiers are equal exactly when they name
/// the same commit.
#[derive(Debug)]
pub struct CommitId {
    pub bytes: Vec<u8>,
}

impl View for CommitId {
    type V = Seq<u8>;

    open spec fn view(&self) -> Seq<u8> {
        self.bytes@
    }
}

impl CommitId {
    /// A fresh identifier holding the same bytes.
    pub fn duplicate(&self) -> (r: CommitId)
        ensures
            r@ == self@,
    {
        let mut bytes: Vec<u8> = Vec::new();
        let mut i: usize = 0;
        while i < self.bytes.len()
            invariant
                i <= self.bytes.len(),
                bytes@ =~= self.bytes@.subrange(0, i as int),
            decreases self.bytes.len() - i,
        {
            bytes.push(self.bytes[i]);
            i = i + 1;
        }
        proof {
            assert(bytes@ =~= self.bytes@);
        }
        CommitId { bytes }
    }
}

impl PartialEq for CommitId {
    fn eq(&self, other: &CommitId) -> (r: bool) {
        if self.bytes.len() != other.bytes.len() {
            return false;
        }
        let mut i: usize = 0;
        while i < self.bytes.len()
            invariant
                i <= self.bytes.len(),
                self.bytes.len() == other.bytes.len(),
                forall|j: int| 0 <= j < i ==> self.bytes@[j] == other.bytes@[j],
            decreases self.bytes.len() - i,
        {
            if self.bytes[i] != other.bytes[i] {
                return false;
            }
            i = i + 1;
        }
        proof {
            assert(self.bytes@ =~= other.bytes@);
        }
        true
    }
}

impl vstd::std_specs::cmp::PartialEqSpecImpl for CommitId {
    open spec fn obeys_eq_spec() -> bool {
        true
    }

    open spec fn eq_spec(&self, other: &CommitId) -> bool {
        self@ == other@
    }
}

/// The local branches of one repository: branch name to tip commit,
/// keys unique, in first-insertion order.
pub type LocalTips = Vec<(String, CommitId)>;

/// The remote-tracking branches of one repository, grouped by the remote
/// they track: remote name to that remote's own branch-to-tip map.
pub type RemoteTips = Vec<(String, LocalTips)>;

/// The contents of a branch-to-tip map, as plain sequences.
pub open spec fn tip_views(s: Seq<(String, CommitId)>) -> Seq<(Seq<char>, Seq<u8>)> {
    s.map_values(|p: (String, CommitId)| (p.0@, p.1@))
}

/// The contents of a remote-grouped map, as plain sequences.
pub open spec fn remote_views(s: Seq<(String, Vec<(String, CommitId)>)>) -> Seq<
    (Seq<char>, Seq<(Seq<char>, Seq<u8>)>),
> {
    s.map_values(|g: (String, Vec<(String, CommitId)>)| (g.0@, tip_views(g.1@)))
}

/// The contents of a listing of branches, where an unresolvable branch is
/// an absent entry.
pub open spec fn opt_tip_views(s: Seq<Option<(String, CommitId)>>) -> Seq<
    Option<(Seq<char>, Seq<u8>)>,
> {
    s.map_values(
        |o: Option<(String, CommitId)>|
            match o {
                Some(p) => Some((p.0@, p.1@)),
                None => None,
            },
    )
}

/// The tip recorded under `key`, taking the first matching entry
/// (well-formed maps hold each key once).
pub open spec fn spec_lookup(m: Seq<(Seq<char>, Seq<u8>)>, key: Seq<char>) -> Option<Seq<u8>>
    decreases m.len(),
{
    if m.len() == 0 {
        None
    } else if m[0].0 == key {
        Some(m[0].1)
    } else {
        spec_lookup(m.drop_first(), key)
    }
}

/// Insertion with overwrite: an existing key keeps its position and takes
/// the new tip; a new key goes to the end.
pub open spec fn spec_upsert(
    m: Seq<(Seq<char>, Seq<u8>)>,
    key: Seq<char>,
    val: Seq<u8>,
) -> Seq<(Seq<char>, Seq<u8>)>
    decreases m.len(),
{
    if m.len() == 0 {
        seq![(key, val)]
    } else if m[0].0 == key {
        seq![(key, val)] + m.drop_first()
    } else {
        seq![m[0]] + spec_upsert(m.drop_first(), key, val)
    }
}

/// The branch-to-tip map built from a branch listing: unresolvable
/// entries are skipped, and a branch listed twice keeps the later tip.
pub open spec fn spec_generate_tips(s: Seq<Option<(Seq<char>, Seq<u8>)>>) -> Seq<
    (Seq<char>, Seq<u8>),
>
    decreases s.len(),
{
    if s.len() == 0 {
        Seq::empty()
    } else {
        let rest = spec_generate_tips(s.drop_last());
        match s.last() {
            Some(p) => spec_upsert(rest, p.0, p.1),
            None => rest,
        }
    }
}

/// A tracking-branch name split at its first separator: the remote's name,
/// and the branch name under that remote (empty when there is no
/// separator).
pub open spec fn spec_split_ref(s: Seq<char>) -> (Seq<char>, Seq<char>)
    decreases s.len(),
{
    if s.len() == 0 {
        (Seq::empty(), Seq::empty())
    } else if s[0] == '/' {
        (Seq::empty(), s.drop_first())
    } else {
        let rest = spec_split_ref(s.drop_first());
        (seq![s[0]] + rest.0, rest.1)
    }
}

/// The map under `remote`, taking the first matching group.
pub open spec fn spec_group_lookup(
    g: Seq<(Seq<char>, Seq<(Seq<char>, Seq<u8>)>)>,
    remote: Seq<char>,
) -> Option<Seq<(Seq<char>, Seq<u8>)>>
    decreases g.len(),
{
    if g.len() == 0 {
        None
    } else if g[0].0 == remote {
        Some(g[0].1)
    } else {
        spec_group_lookup(g.drop_first(), remote)
    }
}

/// Insertion of one tracking branch into its remote's group, creating the
/// group at the end if the remote is new.
pub open spec fn spec_group_insert(
    g: Seq<(Seq<char>, Seq<(Seq<char>, Seq<u8>)>)>,
    remote: Seq<char>,
    branch: Seq<char>,
    val: Seq<u8>,
) -> Seq<(Seq<char>, Seq<(Seq<char>, Seq<u8>)>)>
    decreases g.len(),
{
    if g.len() == 0 {
        seq![(remote, seq![(branch, val)])]
    } else if g[0].0 == remote {
        seq![(g[0].0, spec_upsert(g[0].1, branch, val))] + g.drop_first()
    } else {
        seq![g[0]] + spec_group_insert(g.drop_first(), remote, branch, val)
    }
}

/// The remote-grouped map built from a tracking-branch listing: each
/// resolvable entry's name is split at its first separator into remote
/// and branch, and unresolvable entries are skipped.
pub open spec fn spec_generate_remotes(s: Seq<Option<(Seq<char>, Seq<u8>)>>) -> Seq<
    (Seq<char>, Seq<(Seq<char>, Seq<u8>)>),
>
    decreases s.len(),
{
    if s.len() == 0 {
        Seq::empty()
    } else {
        let rest = spec_generate_remotes(s.drop_last());
        match s.last() {
            Some(p) => {
                let parts = spec_split_ref(p.0);
                spec_group_insert(rest, parts.0, parts.1, p.1)
            },
            None => rest,
        }
    }
}

/// The index of the first separator, if any.
fn find_slash(s: &str) -> (r: Option<usize>)
    ensures
        match r {
            Some(i) => i < s@.len() && s@[i as int] == '/' && forall|j: int|
                0 <= j < i ==> s@[j] != '/',
            None => forall|j: int| 0 <= j < s@.len() ==> s@[j] != '/',
        },
{
    let len = s.unicode_len();
    let mut i: usize = 0;
    while i < len
        invariant
            i <= len,
            len == s@.len(),
            forall|j: int| 0 <= j < i ==> s@[j] != '/',
        decreases len - i,
    {
        if s.get_char(i) == '/' {
            return Some(i);
        }
        i = i + 1;
    }
    None
}

/// `spec_split_ref` splits at the first separator.
proof fn lemma_split_ref_at(s: Seq<char>, i: int)
    requires
        0 <= i <= s.len(),
        forall|j: int| 0 <= j < i ==> s[j] != '/',
        i < s.len() ==> s[i] == '/',
    ensures
        i < s.len() ==> spec_split_ref(s) == (s.subrange(0, i), s.subrange(i + 1, s.len() as int)),
        i == s.len() ==> spec_split_ref(s) == (s, Seq::<char>::empty()),
    decreases s.len(),
{
    if s.len() == 0 {
        assert(s =~= Seq::<char>::empty());
    } else if s[0] == '/' {
        assert(i == 0);
        assert(s.drop_first() =~= s.subrange(1, s.len() as int));
        assert(s.subrange(0, 0) =~= Seq::<char>::empty());
    } else {
        lemma_split_ref_at(s.drop_first(), i - 1);
        let rest = spec_split_ref(s.drop_first());
        if i < s.len() {
            assert(s.drop_first().subrange(0, i - 1) =~= s.subrange(1, i));
            assert(seq![s[0]] + s.subrange(1, i) =~= s.subrange(0, i));
            assert(s.drop_first().subrange(i, s.drop_first().len() as int) =~= s.subrange(
                i + 1,
                s.len() as int,
            ));
        } else {
            assert(seq![s[0]] + s.drop_first() =~= s);
        }
    }
}

/// A tracking-branch name split at its first separator: for `origin/main`,
/// the remote `origin` and the branch `main`. A name with no separator is
/// all remote, with an empty branch name.
pub fn split_ref_name(name: &String) -> (r: (String, String))
    ensures
        r.0@ == spec_split_ref(name@).0,
        r.1@ == spec_split_ref(name@).1,
{
    let s = name.as_str();
    let len = s.unicode_len();
    match find_slash(s) {
        Some(i) => {
            proof {
                lemma_split_ref_at(s@, i as int);
            }
            (s.substring_char(0, i).to_owned(), s.substring_char(i + 1, len).to_owned())
        },
        None => {
            proof {
                lemma_split_ref_at(s@, s@.len() as int);
            }
            (name.clone(), String::new())
        },
    }
}

/// `spec_upsert` either overwrites the first entry holding `key` or
/// appends a new entry.
proof fn lemma_upsert_at(m: Seq<(Seq<char>, Seq<u8>)>, key: Seq<char>, val: Seq<u8>, i: int)
    requires
        0 <= i <= m.len(),
        forall|j: int| 0 <= j < i ==> m[j].0 != key,
        i < m.len() ==> m[i].0 == key,
    ensures
        i < m.len() ==> spec_upsert(m, key, val) == m.update(i, (key, val)),
        i == m.len() ==> spec_upsert(m, key, val) == m.push((key, val)),
    decreases m.len(),
{
    if m.len() == 0 {
        assert(spec_upsert(m, key, val) =~= m.push((key, val)));
    } else if i == 0 && m[0].0 == key {
        assert(seq![(key, val)] + m.drop_first() =~= m.update(0, (key, val)));
    } else {
        lemma_upsert_at(m.drop_first(), key, val, i - 1);
        if i < m.len() {
            assert(seq![m[0]] + m.drop_first().update(i - 1, (key, val)) =~= m.update(
                i,
                (key, val),
            ));
        } else {
            assert(seq![m[0]] + m.drop_first().push((key, val)) =~= m.push((key, val)));
        }
    }
}

/// `spec_group_insert` either extends the first group holding `remote` or
/// appends a new group.
proof fn lemma_group_insert_at(
    g: Seq<(Seq<char>, Seq<(Seq<char>, Seq<u8>)>)>,
    remote: Seq<char>,
    branch: Seq<char>,
    val: Seq<u8>,
    i: int,
)
    requires
        0 <= i <= g.len(),
        forall|j: int| 0 <= j < i ==> g[j].0 != remote,
        i < g.len() ==> g[i].0 == remote,
    ensures
        i < g.len() ==> spec_group_insert(g, remote, branch, val) == g.update(
            i,
            (g[i].0, spec_upsert(g[i].1, branch, val)),
        ),
        i == g.len() ==> spec_group_insert(g, remote, branch, val) == g.push(
            (remote, seq![(branch, val)]),
        ),
    decreases g.len(),
{
    if g.len() == 0 {
        assert(spec_group_insert(g, remote, branch, val) =~= g.push((remote, seq![(branch, val)])));
    } else if i == 0 && g[0].0 == remote {
        assert(seq![(g[0].0, spec_upsert(g[0].1, branch, val))] + g.drop_first() =~= g.update(
            0,
            (g[0].0, spec_upsert(g[0].1, branch, val)),
        ));
    } else {
        lemma_group_insert_at(g.drop_first(), remote, branch, val, i - 1);
        if i < g.len() {
            assert(seq![g[0]] + g.drop_first().update(
                i - 1,
                (g[i].0, spec_upsert(g[i].1, branch, val)),
            ) =~= g.update(i, (g[i].0, spec_upsert(g[i].1, branch, val))));
        } else {
            assert(seq![g[0]] + g.drop_first().push((remote, seq![(branch, val)])) =~= g.push(
                (remote, seq![(branch, val)]),
            ));
        }
    }
}

/// Record `key`'s tip: an already-present branch keeps its position and
/// takes the new tip, a new branch goes to the end.
pub fn upsert_tip(entries: &mut Vec<(String, CommitId)>, key: String, val: CommitId)
    ensures
        tip_views(final(entries)@) == spec_upsert(tip_views(old(entries)@), key@, val@),
{
    let mut i: usize = 0;
    while i < entries.len()
        invariant
            i <= entries.len(),
            entries@ == old(entries)@,
            forall|j: int| 0 <= j < i ==> entries@[j].0@ != key@,
        decreases entries.len() - i,
    {
        if entries[i].0 == key {
            proof {
                lemma_upsert_at(tip_views(entries@), key@, val@, i as int);
            }
            entries.set(i, (key, val));
            proof {
                assert(tip_views(final(entries)@) =~= tip_views(old(entries)@).update(
                    i as int,
                    (key@, val@),
                ));
            }
            return;
        }
        i = i + 1;
    }
    proof {
        lemma_upsert_at(tip_views(entries@), key@, val@, entries@.len() as int);
    }
    entries.push((key, val));
    proof {
        assert(tip_views(final(entries)@) =~= tip_views(old(entries)@).push((key@, val@)));
    }
}

/// A fresh branch-to-tip map with the same contents.
fn dup_tips(v: &Vec<(String, CommitId)>) -> (r: Vec<(String, CommitId)>)
    ensures
        tip_views(r@) == tip_views(v@),
{
    let mut r: Vec<(String, CommitId)> = Vec::new();
    let mut i: usize = 0;
    while i < v.len()
        invariant
            i <= v.len(),
            r@.len() == i,
            forall|j: int| 0 <= j < i ==> r@[j].0@ == v@[j].0@ && r@[j].1@ == v@[j].1@,
        decreases v.len() - i,
    {
        let k = v[i].0.clone();
        let c = v[i].1.duplicate();
        r.push((k, c));
        i = i + 1;
    }
    proof {
        assert(tip_views(r@) =~= tip_views(v@));
    }
    r
}

/// Record one tracking branch under its remote, creating the remote's
/// group at the end if it is new.
pub fn group_insert(groups: &mut Vec<(String, Vec<(String, CommitId)>)>, remote: String, branch: String, val: CommitId)
    ensures
        remote_views(final(groups)@) == spec_group_insert(
            remote_views(old(groups)@),
            remote@,
            branch@,
            val@,
        ),
{
    let mut i: usize = 0;
    while i < groups.len()
        invariant
            i <= groups.len(),
            groups@ == old(groups)@,
            forall|j: int| 0 <= j < i ==> groups@[j].0@ != remote@,
        decreases groups.len() - i,
    {
        if groups[i].0 == remote {
            proof {
                lemma_group_insert_at(remote_views(groups@), remote@, branch@, val@, i as int);
            }
            let name = groups[i].0.clone();
            let mut inner = dup_tips(&groups[i].1);
            upsert_tip(&mut inner, branch, val);
            groups.set(i, (name, inner));
            proof {
                assert(remote_views(final(groups)@) =~= remote_views(old(groups)@).update(
                    i as int,
                    (old(groups)@[i as int].0@, spec_upsert(
                        tip_views(old(groups)@[i as int].1@),
                        branch@,
                        val@,
                    )),
                ));
            }
            return;
        }
        i = i + 1;
    }
    proof {
        lemma_group_insert_at(remote_views(groups@), remote@, branch@, val@, groups@.len() as int);
    }
    let mut inner: Vec<(String, CommitId)> = Vec::new();
    inner.push((branch, val));
    groups.push((remote, inner));
    proof {
        assert(tip_views(inner@) =~= seq![(branch@, val@)]);
        assert(remote_views(final(groups)@) =~= remote_views(old(groups)@).push(
            (remote@, seq![(branch@, val@)]),
        ));
    }
}

/// The branch-to-tip map of a listing of local branches: unresolvable
/// branches are skipped, and a branch listed twice keeps the later tip.
pub fn generate_tips(branches: &Vec<Option<(String, CommitId)>>) -> (r: LocalTips)
    ensures
        tip_views(r@) == spec_generate_tips(opt_tip_views(branches@)),
{
    let mut r: LocalTips = Vec::new();
    let mut i: usize = 0;
    while i < branches.len()
        invariant
            i <= branches.len(),
            tip_views(r@) == spec_generate_tips(opt_tip_views(branches@.subrange(0, i as int))),
        decreases branches.len() - i,
    {
        proof {
            assert(branches@.subrange(0, i + 1).drop_last() =~= branches@.subrange(0, i as int));
            assert(opt_tip_views(branches@.subrange(0, i + 1)).drop_last() =~= opt_tip_views(
                branches@.subrange(0, i + 1).drop_last(),
            ));
        }
        match &branches[i] {
            Some(p) => {
                let k = p.0.clone();
                let v = p.1.duplicate();
                upsert_tip(&mut r, k, v);
            },
            None => {},
        }
        i = i + 1;
    }
    proof {
        assert(branches@.subrange(0, branches@.len() as int) =~= branches@);
    }
    r
}

/// The remote-grouped map of a listing of tracking branches: each
/// resolvable entry's name is split at its first separator into remote
/// and branch; unresolvable branches are skipped.
pub fn generate_remote_tips(branches: &Vec<Option<(String, CommitId)>>) -> (r: RemoteTips)
    ensures
        remote_views(r@) == spec_generate_remotes(opt_tip_views(branches@)),
{
    let mut r: RemoteTips = Vec::new();
    let mut i: usize = 0;
    while i < branches.len()
        invariant
            i <= branches.len(),
            remote_views(r@) == spec_generate_remotes(
                opt_tip_views(branches@.subrange(0, i as int)),
            ),
        decreases branches.len() - i,
    {
        proof {
            assert(branches@.subrange(0, i + 1).drop_last() =~= branches@.subrange(0, i as int));
            assert(opt_tip_views(branches@.subrange(0, i + 1)).drop_last() =~= opt_tip_views(
                branches@.subrange(0, i + 1).drop_last(),
            ));
        }
        match &branches[i] {
            Some(p) => {
                let parts = split_ref_name(&p.0);
                group_insert(&mut r, parts.0, parts.1, p.1.duplicate());
            },
            None => {},
        }
        i = i + 1;
    }
    proof {
        assert(branches@.subrange(0, branches@.len() as int) =~= branches@);
    }
    r
}

/// The tip recorded under `key`.
pub fn lookup_tip<'a>(entries: &'a Vec<(String, CommitId)>, key: &String) -> (r: Option<
    &'a CommitId,
>)
    ensures
        match r {
            Some(c) => spec_lookup(tip_views(entries@), key@) == Some(c@),
            None => spec_lookup(tip_views(entries@), key@) is None,
        },
{
    let mut i: usize = 0;
    proof {
        assert(entries@.subrange(0, entries@.len() as int) =~= entries@);
    }
    while i < entries.len()
        invariant
            i <= entries.len(),
            spec_lookup(tip_views(entries@), key@) == spec_lookup(
                tip_views(entries@.subrange(i as int, entries@.len() as int)),
                key@,
            ),
        decreases entries.len() - i,
    {
        proof {
            let tail = entries@.subrange(i as int, entries@.len() as int);
            assert(tip_views(tail)[0] == (entries@[i as int].0@, entries@[i as int].1@));
            assert(tail.drop_first() =~= entries@.subrange(i + 1, entries@.len() as int));
            assert(tip_views(tail).drop_first() =~= tip_views(
                entries@.subrange(i + 1, entries@.len() as int),
            ));
        }
        if entries[i].0 == *key {
            return Some(&entries[i].1);
        }
        i = i + 1;
    }
    proof {
        assert(tip_views(entries@.subrange(entries@.len() as int, entries@.len() as int)).len()
            == 0);
    }
    None
}

} // verus!
