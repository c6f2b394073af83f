use vstd::prelude::*;

use crate::err::ScanError;

verus! {

/// A name with a trailing `.git` dropped.
pub open spec fn spec_remove_dotgit(s: Seq<char>) -> Seq<char> {
    if s.len() >= 4 && s.subrange(s.len() - 4, s.len() as int) == ".git"@ {
        s.subrange(0, s.len() - 4)
    } else {
        s
    }
}

/// Drop a trailing `.git` from a name, if it carries one.
pub fn remove_dotgit<'a>(s: &'a str) -> (r: &'a str)
    ensures
        r@ == spec_remove_dotgit(s@),
{
    proof {
        reveal_strlit(".git");
    }
    let len = s.unicode_len();
    if len < 4 {
        return s;
    }
    let dotgit = s.get_char(len - 4) == '.' && s.get_char(len - 3) == 'g' && s.get_char(len - 2)
        == 'i' && s.get_char(len - 1) == 't';
    if dotgit {
        proof {
            assert(s@.subrange(len - 4, len as int) =~= ".git"@);
        }
        s.substring_char(0, len - 4)
    } else {
        proof {
            assert(s@.subrange(len - 4, len as int) != ".git"@) by {
                if s@.subrange(len - 4, len as int) == ".git"@ {
                    assert(s@.subrange(len - 4, len as int)[0] == '.');
                    assert(s@.subrange(len - 4, len as int)[1] == 'g');
                    assert(s@.subrange(len - 4, len as int)[2] == 'i');
                    assert(s@.subrange(len - 4, len as int)[3] == 't');
                }
            }
        }
        s
    }
}

/// The tail of a clone location built from a path: each maximal run of
/// non-separator characters becomes one separator followed by the run,
/// so empty segments collapse. `boundary` says whether the next
/// non-separator character starts a new segment.
pub open spec fn spec_join_from(s: Seq<char>, boundary: bool) -> Seq<char>
    decreases s.len(),
{
    if s.len() == 0 {
        Seq::empty()
    } else if s[0] == '/' {
        spec_join_from(s.drop_first(), true)
    } else {
        (if boundary {
            seq!['/']
        } else {
            Seq::empty()
        }) + seq![s[0]] + spec_join_from(s.drop_first(), false)
    }
}

/// The path tail for a segment string: `/a/b` and `a//b` both become
/// `/a/b`.
pub open spec fn spec_join_segments(s: Seq<char>) -> Seq<char> {
    spec_join_from(s, true)
}

/// Append the path tail for `path` to `out`.
fn append_segments(out: &mut String, path: &str)
    ensures
        final(out)@ == old(out)@ + spec_join_segments(path@),
{
    let ghost full = path@;
    let len = path.unicode_len();
    let mut boundary = true;
    let mut i: usize = 0;
    proof {
        assert(full.subrange(0, full.len() as int) =~= full);
    }
    while i < len
        invariant
            i <= len,
            len == full.len(),
            full == path@,
            old(out)@ + spec_join_from(full, true) == out@ + spec_join_from(
                full.subrange(i as int, full.len() as int),
                boundary,
            ),
        decreases len - i,
    {
        let ghost suffix = full.subrange(i as int, full.len() as int);
        proof {
            assert(suffix[0] == full[i as int]);
            assert(suffix.drop_first() =~= full.subrange(i + 1, full.len() as int));
        }
        let c = path.get_char(i);
        if c == '/' {
            boundary = true;
        } else {
            let ghost before = out@;
            if boundary {
                out.append("/");
                proof {
                    reveal_strlit("/");
                }
            }
            let piece = path.substring_char(i, i + 1);
            proof {
                assert(piece@ =~= seq![full[i as int]]);
            }
            out.append(piece);
            proof {
                if boundary {
                    assert(out@ =~= before + (seq!['/'] + seq![full[i as int]]));
                } else {
                    assert(out@ =~= before + (Seq::<char>::empty() + seq![full[i as int]]));
                }
                assert(before + ((if boundary {
                    seq!['/']
                } else {
                    Seq::<char>::empty()
                }) + seq![full[i as int]] + spec_join_from(suffix.drop_first(), false)) =~= out@
                    + spec_join_from(suffix.drop_first(), false));
            }
            boundary = false;
        }
        i = i + 1;
    }
    proof {
        assert(full.subrange(full.len() as int, full.len() as int) =~= Seq::<char>::empty());
        assert(out@ + Seq::<char>::empty() =~= out@);
    }
}

/// The clone location under `base_dir` for a repository at `path` on
/// `host`: the base, the host and the path's segments, separated by
/// single separators, with a trailing `.git` dropped from the whole
/// path and empty segments collapsed.
pub open spec fn spec_clone_dir(base: Seq<char>, host: Seq<char>, path: Seq<char>) -> Seq<char> {
    base + "/"@ + host + spec_join_segments(spec_remove_dotgit(path))
}

/// Build the clone location for a host and path already taken apart.
pub fn build_clone_dir(base_dir: &str, host: &str, path: &str) -> (r: String)
    ensures
        r@ == spec_clone_dir(base_dir@, host@, path@),
{
    let mut s = base_dir.to_owned();
    s.append("/");
    s.append(host);
    let trimmed = remove_dotgit(path);
    append_segments(&mut s, trimmed);
    proof {
        reveal_strlit("/");
        assert(s@ =~= spec_clone_dir(base_dir@, host@, path@));
    }
    s
}

/// What the ssh address pattern finds in an address: the host and the
/// path of the first match, if the address matches at all.
pub uninterp spec fn ssh_capture_of(s: Seq<char>) -> Option<(Seq<char>, Seq<char>)>;

/// Relies on the regex crate: the pattern `[^@]+@([^:]+):(.*)` run over
/// the address, handing back capture one (the host, after the `@`) and
/// capture two (the path, after the `:`). What it finds depends on the
/// address alone.
#[verifier::external_body]
fn ssh_capture(s: &str) -> (r: Option<(String, String)>)
    ensures
        match r {
            Some(c) => ssh_capture_of(s@) == Some((c.0@, c.1@)),
            None => ssh_capture_of(s@) is None,
        },
{
    let re = match regex::Regex::new(r"[^@]+@([^:]+):(.*)") {
        Ok(re) => re,
        Err(_) => return None,
    };
    match re.captures(s) {
        Some(c) => match (c.get(1), c.get(2)) {
            (Some(host), Some(path)) => Some((host.as_str().to_owned(), path.as_str().to_owned())),
            _ => None,
        },
        None => None,
    }
}

/// What [`find_dir_ssh`] promises: a matching address yields its clone
/// location, anything else is refused as invalid.
pub open spec fn spec_ssh_outcome(
    base: Seq<char>,
    url: Seq<char>,
    r: Result<String, ScanError>,
) -> bool {
    match ssh_capture_of(url) {
        Some(c) => r matches Ok(p) && p@ == spec_clone_dir(base, c.0, c.1),
        None => r matches Err(e) && e is InvalidUrl,
    }
}

/// The clone location for an ssh-style address, `user@host:path`: the
/// base directory, the host, then the path's segments. An address the
/// pattern does not match is refused as invalid.
pub fn find_dir_ssh(base_dir: &str, clone_url: &str) -> (r: Result<String, ScanError>)
    ensures
        spec_ssh_outcome(base_dir@, clone_url@, r),
{
    match ssh_capture(clone_url) {
        Some(c) => Ok(build_clone_dir(base_dir, c.0.as_str(), c.1.as_str())),
        None => Err(ScanError::InvalidUrl),
    }
}

/// A web URL's host, as far as clone locations care: a domain name, or
/// some other kind of host (an address), or none at all.
#[derive(Debug)]
pub enum UrlHost {
    Domain(String),
    Other,
    Missing,
}

/// What a parsed web URL carries for building a clone location.
#[derive(Debug)]
pub struct ParsedUrl {
    pub host: UrlHost,
    pub segments: Option<Vec<String>>,
}

/// The content of a [`UrlHost`].
pub enum UrlHostV {
    Domain(Seq<char>),
    Other,
    Missing,
}

/// The content of a [`ParsedUrl`].
pub struct ParsedUrlV {
    pub host: UrlHostV,
    pub segments: Option<Seq<Seq<char>>>,
}

impl View for UrlHost {
    type V = UrlHostV;

    open spec fn view(&self) -> UrlHostV {
        match self {
            UrlHost::Domain(d) => UrlHostV::Domain(d@),
            UrlHost::Other => UrlHostV::Other,
            UrlHost::Missing => UrlHostV::Missing,
        }
    }
}

impl View for ParsedUrl {
    type V = ParsedUrlV;

    open spec fn view(&self) -> ParsedUrlV {
        ParsedUrlV {
            host: self.host@,
            segments: match &self.segments {
                Some(v) => Some(v@.map_values(|x: String| x@)),
                None => None,
            },
        }
    }
}

/// The path tail a web URL's segments contribute: each segment with a
/// trailing `.git` dropped, skipped entirely when that leaves nothing.
pub open spec fn spec_url_tail(segments: Seq<Seq<char>>) -> Seq<char>
    decreases segments.len(),
{
    if segments.len() == 0 {
        Seq::empty()
    } else {
        let trimmed = spec_remove_dotgit(segments.last());
        spec_url_tail(segments.drop_last()) + (if trimmed.len() == 0 {
            Seq::<char>::empty()
        } else {
            seq!['/'] + trimmed
        })
    }
}

/// The clone location for a parsed web URL with a domain host.
pub open spec fn spec_url_dir(
    base: Seq<char>,
    host: Seq<char>,
    segments: Option<Seq<Seq<char>>>,
) -> Seq<char> {
    base + "/"@ + host + (match segments {
        Some(s) => spec_url_tail(s),
        None => Seq::<char>::empty(),
    })
}

/// What [`find_dir_url`] promises: a domain-hosted URL yields its clone
/// location; a URL with no host, or a non-domain host, is refused.
pub open spec fn spec_url_outcome(
    base: Seq<char>,
    url: ParsedUrlV,
    r: Result<String, ScanError>,
) -> bool {
    match url.host {
        UrlHostV::Missing => r matches Err(e) && e is NoHost,
        UrlHostV::Other => r matches Err(e) && e is NonDomainHost,
        UrlHostV::Domain(d) => r matches Ok(p) && p@ == spec_url_dir(base, d, url.segments),
    }
}

/// The clone location for a web URL already taken apart: the base
/// directory, the domain, then the path's segments, each with a
/// trailing `.git` dropped. A URL with no host, or with an address for
/// a host, is refused.
pub fn find_dir_url(base_dir: &str, url: &ParsedUrl) -> (r: Result<String, ScanError>)
    ensures
        spec_url_outcome(base_dir@, url@, r),
{
    let host = match &url.host {
        UrlHost::Domain(d) => d,
        UrlHost::Other => {
            return Err(ScanError::NonDomainHost);
        },
        UrlHost::Missing => {
            return Err(ScanError::NoHost);
        },
    };
    let mut s = base_dir.to_owned();
    s.append("/");
    s.append(host.as_str());
    proof {
        reveal_strlit("/");
        assert(s@ =~= base_dir@ + "/"@ + host@);
    }
    match &url.segments {
        Some(segments) => {
            let ghost sv = segments@.map_values(|x: String| x@);
            let ghost head = base_dir@ + "/"@ + host@;
            let mut i: usize = 0;
            proof {
                assert(sv.subrange(0, 0) =~= Seq::<Seq<char>>::empty());
            }
            while i < segments.len()
                invariant
                    i <= segments.len(),
                    sv == segments@.map_values(|x: String| x@),
                    s@ == head + spec_url_tail(sv.subrange(0, i as int)),
                decreases segments.len() - i,
            {
                proof {
                    assert(sv.subrange(0, i + 1).drop_last() =~= sv.subrange(0, i as int));
                    assert(sv.subrange(0, i + 1).last() == sv[i as int]);
                }
                let ghost before = s@;
                let trimmed = remove_dotgit(segments[i].as_str());
                if trimmed.unicode_len() > 0 {
                    s.append("/");
                    s.append(trimmed);
                    proof {
                        reveal_strlit("/");
                        assert(s@ =~= before + (seq!['/'] + trimmed@));
                    }
                } else {
                    proof {
                        assert(s@ =~= before + Seq::<char>::empty());
                    }
                }
                i = i + 1;
            }
            proof {
                assert(sv.subrange(0, sv.len() as int) =~= sv);
            }
            Ok(s)
        },
        None => Ok(s),
    }
}

/// What a clone URL parses to as a web URL, if it is one at all.
pub uninterp spec fn url_parse_of(s: Seq<char>) -> Option<ParsedUrlV>;

/// Relies on url::Url::parse and its host and path_segments accessors:
/// whether the address is a web URL, and the host kind and path
/// segments it carries; all of it depends on the address alone.
#[verifier::external_body]
fn parse_clone_url(s: &str) -> (r: Option<ParsedUrl>)
    ensures
        match r {
            Some(u) => url_parse_of(s@) == Some(u@),
            None => url_parse_of(s@) is None,
        },
{
    let parsed = match url::Url::parse(s) {
        Ok(u) => u,
        Err(_) => return None,
    };
    let host = match parsed.host() {
        Some(url::Host::Domain(d)) => UrlHost::Domain(d.to_owned()),
        Some(_) => UrlHost::Other,
        None => UrlHost::Missing,
    };
    let segments = parsed.path_segments().map(|it| it.map(|x| x.to_owned()).collect::<Vec<String>>());
    Some(ParsedUrl { host, segments })
}

/// The clone location for any address: an address that parses as a web
/// URL goes by its host and path; anything else is tried as an
/// ssh-style address.
pub fn find_dir(base_dir: &str, clone_url: &str) -> (r: Result<String, ScanError>)
    ensures
        match url_parse_of(clone_url@) {
            Some(u) => spec_url_outcome(base_dir@, u, r),
            None => spec_ssh_outcome(base_dir@, clone_url@, r),
        },
{
    match parse_clone_url(clone_url) {
        Some(url) => find_dir_url(base_dir, &url),
        None => find_dir_ssh(base_dir, clone_url),
    }
}

/// Whether this name is `origin`, the conventional primary remote.
fn is_origin(name: &String) -> (r: bool)
    ensures
        r == (name@ == "origin"@),
{
    proof {
        reveal_strlit("origin");
    }
    let s = name.as_str();
    if s.unicode_len() != 6 {
        return false;
    }
    let r = s.get_char(0) == 'o' && s.get_char(1) == 'r' && s.get_char(2) == 'i' && s.get_char(3)
        == 'g' && s.get_char(4) == 'i' && s.get_char(5) == 'n';
    proof {
        if r {
            assert(name@ =~= "origin"@);
        }
    }
    r
}

/// The URL of the first remote named `origin` that has one.
pub open spec fn spec_origin_url(s: Seq<(Seq<char>, Option<Seq<char>>)>) -> Option<Seq<char>>
    decreases s.len(),
{
    if s.len() == 0 {
        None
    } else if s[0].0 == "origin"@ && s[0].1 is Some {
        s[0].1
    } else {
        spec_origin_url(s.drop_first())
    }
}

/// The URL of the first remote that has one.
pub open spec fn spec_first_url(s: Seq<(Seq<char>, Option<Seq<char>>)>) -> Option<Seq<char>>
    decreases s.len(),
{
    if s.len() == 0 {
        None
    } else if s[0].1 is Some {
        s[0].1
    } else {
        spec_first_url(s.drop_first())
    }
}

/// The URL a repository is organized under: `origin`'s when origin has
/// one, else the first remote's that has one, else none.
pub open spec fn spec_canonical_url(s: Seq<(Seq<char>, Option<Seq<char>>)>) -> Option<Seq<char>> {
    match spec_origin_url(s) {
        Some(u) => Some(u),
        None => spec_first_url(s),
    }
}

/// The contents of a remote listing: each remote's name and its URL, if
/// it has one.
pub open spec fn remote_list_views(s: Seq<(String, Option<String>)>) -> Seq<
    (Seq<char>, Option<Seq<char>>),
> {
    s.map_values(
        |p: (String, Option<String>)|
            (
                p.0@,
                match p.1 {
                    Some(u) => Some(u@),
                    None => None,
                },
            ),
    )
}

/// Pick the URL a repository is organized under, from its remotes in
/// listing order: `origin`'s URL when origin has one, else the first
/// remote's that has one.
pub fn choose_remote_url(remotes: &Vec<(String, Option<String>)>) -> (r: Option<String>)
    ensures
        match r {
            Some(u) => spec_canonical_url(remote_list_views(remotes@)) == Some(u@),
            None => spec_canonical_url(remote_list_views(remotes@)) is None,
        },
{
    let ghost rv = remote_list_views(remotes@);
    let mut i: usize = 0;
    proof {
        assert(rv.subrange(0, rv.len() as int) =~= rv);
    }
    while i < remotes.len()
        invariant
            i <= remotes.len(),
            rv == remote_list_views(remotes@),
            spec_origin_url(rv) == spec_origin_url(rv.subrange(i as int, rv.len() as int)),
        decreases remotes.len() - i,
    {
        proof {
            let tail = rv.subrange(i as int, rv.len() as int);
            assert(tail[0] == rv[i as int]);
            assert(tail.drop_first() =~= rv.subrange(i + 1, rv.len() as int));
        }
        if is_origin(&remotes[i].0) {
            match &remotes[i].1 {
                Some(u) => {
                    return Some(u.clone());
                },
                None => {},
            }
        }
        i = i + 1;
    }
    proof {
        assert(rv.subrange(rv.len() as int, rv.len() as int) =~= Seq::<
            (Seq<char>, Option<Seq<char>>),
        >::empty());
    }
    let mut k: usize = 0;
    proof {
        assert(rv.subrange(0, rv.len() as int) =~= rv);
    }
    while k < remotes.len()
        invariant
            k <= remotes.len(),
            rv == remote_list_views(remotes@),
            spec_origin_url(rv) is None,
            spec_first_url(rv) == spec_first_url(rv.subrange(k as int, rv.len() as int)),
        decreases remotes.len() - k,
    {
        proof {
            let tail = rv.subrange(k as int, rv.len() as int);
            assert(tail[0] == rv[k as int]);
            assert(tail.drop_first() =~= rv.subrange(k + 1, rv.len() as int));
        }
        match &remotes[k].1 {
            Some(u) => {
                return Some(u.clone());
            },
            None => {},
        }
        k = k + 1;
    }
    proof {
        assert(rv.subrange(rv.len() as int, rv.len() as int) =~= Seq::<
            (Seq<char>, Option<Seq<char>>),
        >::empty());
    }
    None
}

} // verus!
