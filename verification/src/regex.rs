//! The source resolver: recognises hosted-repository URLs and takes
//! them apart into host, owner and repository.
//!
//! A source string that does not parse as a URL is not an error: the
//! caller then treats it as the name of a registered template.

pub mod github;

use crate::text::{
    find_from, from_chars, lemma_index_of_first_is, lemma_index_of_first_none,
    lemma_index_of_last_is, matches_at, rfind_from, spec_after_last, spec_before_first, sub_vec,
    to_chars,
};
use crate::{Error, ErrorKind};
use vstd::prelude::*;
use vstd::string::StrSliceExecFns;

verus! {

/// The length of the scheme prefix of `s`: 8 for `https://`, 7 for
/// `http://`, none otherwise.
pub open spec fn spec_scheme_len(s: Seq<char>) -> Option<int> {
    if s.len() >= 8 && s.take(8) == "https://"@ {
        Some(8int)
    } else if s.len() >= 7 && s.take(7) == "http://"@ {
        Some(7int)
    } else {
        None
    }
}

/// The path part of `s`: what follows the first `/` after the scheme
/// and a non-empty host; none without scheme, slash or host.
pub open spec fn spec_url_path(s: Seq<char>) -> Option<Seq<char>> {
    match spec_scheme_len(s) {
        Some(h) => {
            let rest = s.skip(h);
            match rest.index_of_first('/') {
                Some(i) => if i > 0 {
                    Some(rest.skip(i + 1))
                } else {
                    None
                },
                None => None,
            }
        },
        None => None,
    }
}

/// Whether the segment carries a trailing `.git`.
pub open spec fn spec_ends_with_git(seg: Seq<char>) -> bool {
    seg.len() >= 4 && seg.skip(seg.len() as int - 4) == ".git"@
}

/// The segment with exactly a trailing `.git` removed, when it
/// carries one.
pub open spec fn spec_strip_git(seg: Seq<char>) -> Seq<char> {
    if spec_ends_with_git(seg) {
        seg.take(seg.len() as int - 4)
    } else {
        seg
    }
}

/// What `extract_path` returns: the first path segment, and the last
/// path segment with a trailing `.git` stripped.
pub open spec fn spec_extract_path(s: Seq<char>) -> Option<(Seq<char>, Seq<char>)> {
    match spec_url_path(s) {
        Some(p) => Some((spec_before_first(p, '/'), spec_strip_git(spec_after_last(p, '/')))),
        None => None,
    }
}

/// Whether `t` reads `<owner>/<repo>`: one slash with a non-empty,
/// slash-free segment on each side.
pub open spec fn spec_valid_tail(t: Seq<char>) -> bool {
    match t.index_of_first('/') {
        Some(i) => i > 0 && i + 1 < t.len() && !t.skip(i + 1).contains('/'),
        None => false,
    }
}

/// Whether `s` reads `https://<site>.com/<owner>/<repo>[.git]` with the
/// scheme optional and the site one of the known providers.
pub open spec fn spec_is_valid_url(s: Seq<char>) -> bool {
    let t = if s.len() >= 8 && s.take(8) == "https://"@ {
        s.skip(8)
    } else {
        s
    };
    &&& t.len() >= 11
    &&& (t.take(11) == "github.com/"@ || t.take(11) == "gitlab.com/"@)
    &&& spec_valid_tail(t.skip(11))
}

/// The host label `extract_host` finds in `t`: the non-empty run before
/// the first dot, when the four characters from that dot read `.com`.
pub open spec fn spec_host_label(t: Seq<char>) -> Option<Seq<char>> {
    match t.index_of_first('.') {
        Some(i) => if i > 0 && i + 4 <= t.len() && t.subrange(i, i + 4) == ".com"@ {
            Some(t.take(i))
        } else {
            None
        },
        None => None,
    }
}

/// The label `extract_host` picks, before lower-casing: the one after
/// the scheme, with a leading `www.` stripped when a label follows it.
pub open spec fn spec_picked_host_label(s: Seq<char>) -> Option<Seq<char>> {
    match spec_scheme_len(s) {
        Some(h) => {
            let rest = s.skip(h);
            if rest.len() >= 4 && rest.take(4) == "www."@ && spec_host_label(rest.skip(4))
                is Some {
                spec_host_label(rest.skip(4))
            } else {
                spec_host_label(rest)
            }
        },
        None => None,
    }
}

/// What `extract_host` returns: the picked label, lower-cased.
pub open spec fn spec_extract_host(s: Seq<char>) -> Option<Seq<char>> {
    match spec_picked_host_label(s) {
        Some(l) => Some(crate::text::spec_lower(l)),
        None => None,
    }
}

/// Whether `<owner>/<repo>` stands at position `a` of `cs` and runs to
/// its end.
pub(crate) fn valid_tail_from(cs: &Vec<char>, a: usize) -> (r: bool)
    requires
        a <= cs@.len(),
    ensures
        r == spec_valid_tail(cs@.skip(a as int)),
{
    let ghost t = cs@.skip(a as int);
    match find_from(cs, a, '/') {
        Some(i) => {
            proof {
                lemma_index_of_first_is(t, '/', i - a);
            }
            if i == a {
                return false;
            }
            if i + 1 >= cs.len() {
                return false;
            }
            match find_from(cs, i + 1, '/') {
                Some(_) => {
                    assert(t.skip(i - a + 1).contains('/')) by {
                        let k = choose|k: int|
                            i + 1 <= k < cs@.len() && cs@[k] == '/';
                        assert(t.skip(i - a + 1)[k - i - 1] == '/');
                    }
                    false
                },
                None => {
                    assert(!t.skip(i - a + 1).contains('/'));
                    true
                },
            }
        },
        None => {
            proof {
                lemma_index_of_first_none(t, '/');
            }
            false
        },
    }
}

/// Whether the source string is a well-formed hosted-repository URL,
/// `https://<site>.com/<owner>/<repo>[.git]` with optional scheme and a
/// known site. Never fails; the `Result` mirrors the callers' shape.
pub fn is_valid_url(input: &str) -> (r: Result<bool, Error>)
    ensures
        r matches Ok(b) && b == spec_is_valid_url(input@),
{
    let cs = to_chars(input);
    let start: usize = if matches_at(&cs, 0, "https://") {
        8
    } else {
        0
    };
    proof {
        reveal_strlit("https://");
        reveal_strlit("github.com/");
        reveal_strlit("gitlab.com/");
    }
    if cs.len() < start {
        return Ok(false);
    }
    if matches_at(&cs, start, "github.com/") || matches_at(&cs, start, "gitlab.com/") {
        let ok = valid_tail_from(&cs, start + 11);
        assert(cs@.skip(start as int).skip(11) =~= cs@.skip(start + 11));
        assert(cs@.skip(start as int).take(11) =~= cs@.subrange(
            start as int,
            start + 11,
        ));
        Ok(ok)
    } else {
        assert(!spec_is_valid_url(input@)) by {
            let t = if input@.len() >= 8 && input@.take(8) == "https://"@ {
                input@.skip(8)
            } else {
                input@
            };
            if t.len() >= 11 {
                assert(t.take(11) =~= cs@.subrange(start as int, start + 11));
            }
        }
        Ok(false)
    }
}

/// Takes the URL apart into `(owner, repository)`: the first path
/// segment and the last one with a trailing `.git` stripped; any other
/// dot in the name is kept. None without a scheme, host or path.
pub fn extract_path<'a>(url: &'a str) -> (r: Option<(&'a str, &'a str)>)
    ensures
        match r {
            Some(p) => spec_extract_path(url@) == Some((p.0@, p.1@)),
            None => spec_extract_path(url@) is None,
        },
{
    let cs = to_chars(url);
    let h: usize;
    if matches_at(&cs, 0, "https://") {
        h = 8;
        proof {
            reveal_strlit("https://");
        }
    } else if matches_at(&cs, 0, "http://") {
        h = 7;
        proof {
            reveal_strlit("https://");
            reveal_strlit("http://");
        }
    } else {
        return None;
    }
    let ghost rest = url@.skip(h as int);
    let slash = match find_from(&cs, h, '/') {
        Some(i) => i,
        None => {
            proof {
                lemma_index_of_first_none(rest, '/');
            }
            return None;
        },
    };
    proof {
        lemma_index_of_first_is(rest, '/', slash - h);
    }
    if slash == h {
        return None;
    }
    let ghost p = rest.skip(slash - h + 1);
    assert(p =~= url@.skip(slash + 1));

    // owner: up to the first slash of the path, else the whole path
    let owner_end = match find_from(&cs, slash + 1, '/') {
        Some(k) => {
            proof {
                lemma_index_of_first_is(p, '/', k - slash - 1);
            }
            k
        },
        None => {
            proof {
                lemma_index_of_first_none(p, '/');
            }
            cs.len()
        },
    };
    let owner = url.substring_char(slash + 1, owner_end);
    assert(owner@ =~= spec_before_first(p, '/'));

    // last segment: after the last slash of the path, else the whole path
    let seg_start = match rfind_from(&cs, slash + 1, '/') {
        Some(m) => {
            proof {
                lemma_index_of_last_is(p, '/', m - slash - 1);
            }
            m + 1
        },
        None => slash + 1,
    };
    let ghost seg = spec_after_last(p, '/');
    assert(seg =~= url@.skip(seg_start as int));

    // repository: the segment with a trailing `.git` stripped
    let repo_end: usize;
    if cs.len() - seg_start >= 4 && matches_at(&cs, cs.len() - 4, ".git") {
        repo_end = cs.len() - 4;
        proof {
            reveal_strlit(".git");
            assert(seg.skip(seg.len() as int - 4) =~= cs@.subrange(
                cs@.len() - 4,
                cs@.len() as int,
            ));
            assert(spec_ends_with_git(seg));
        }
    } else {
        repo_end = cs.len();
        proof {
            reveal_strlit(".git");
            if seg.len() >= 4 {
                assert(seg.skip(seg.len() as int - 4) =~= cs@.subrange(
                    cs@.len() - 4,
                    cs@.len() as int,
                ));
            }
            assert(!spec_ends_with_git(seg));
        }
    }
    let repo = url.substring_char(seg_start, repo_end);
    assert(repo@ =~= spec_strip_git(seg));
    Some((owner, repo))
}

/// The host label of the URL, lower-cased: the run before the first
/// `.com` after the scheme, with a leading `www.` stripped.
pub fn extract_host(url: &str) -> (r: Option<String>)
    ensures
        match r {
            Some(x) => spec_extract_host(url@) == Some(x@),
            None => spec_extract_host(url@) is None,
        },
{
    let cs = to_chars(url);
    let h: usize;
    if matches_at(&cs, 0, "https://") {
        h = 8;
        proof {
            reveal_strlit("https://");
        }
    } else if matches_at(&cs, 0, "http://") {
        h = 7;
        proof {
            reveal_strlit("https://");
            reveal_strlit("http://");
        }
    } else {
        return None;
    }
    proof {
        reveal_strlit("www.");
    }
    let label = if matches_at(&cs, h, "www.") {
        assert(url@.skip(h as int).take(4) =~= url@.subrange(h as int, h + 4));
        match host_label_at(&cs, h + 4) {
            Some(x) => {
                assert(url@.skip(h as int).skip(4) =~= url@.skip(h + 4));
                Some(x)
            },
            None => {
                assert(url@.skip(h as int).skip(4) =~= url@.skip(h + 4));
                host_label_at(&cs, h)
            },
        }
    } else {
        assert(url@.skip(h as int).len() >= 4 ==> url@.skip(h as int).take(4) =~= url@.subrange(
            h as int,
            h + 4,
        ));
        host_label_at(&cs, h)
    };
    match label {
        Some(l) => {
            let lowered = crate::text::lower_chars(&l);
            Some(from_chars(&lowered))
        },
        None => None,
    }
}

/// The host label standing at position `a` of `cs`, if the four
/// characters from its first dot read `.com`.
fn host_label_at(cs: &Vec<char>, a: usize) -> (r: Option<Vec<char>>)
    requires
        a <= cs@.len(),
    ensures
        match r {
            Some(x) => spec_host_label(cs@.skip(a as int)) == Some(x@),
            None => spec_host_label(cs@.skip(a as int)) is None,
        },
{
    proof {
        reveal_strlit(".com");
    }
    let ghost t = cs@.skip(a as int);
    let d = match find_from(cs, a, '.') {
        Some(d) => {
            proof {
                lemma_index_of_first_is(t, '.', d - a);
            }
            d
        },
        None => {
            proof {
                lemma_index_of_first_none(t, '.');
            }
            return None;
        },
    };
    if d == a {
        return None;
    }
    if matches_at(cs, d, ".com") {
        assert(t.subrange(d - a, d - a + 4) =~= cs@.subrange(d as int, d + 4));
        let label = sub_vec(cs, a, d);
        assert(label@ =~= t.take(d - a));
        Some(label)
    } else {
        assert(d - a + 4 <= t.len() ==> t.subrange(d - a, d - a + 4) =~= cs@.subrange(
            d as int,
            d + 4,
        ));
        None
    }
}

/// A well-formed hosted URL resolves to its own parts: for every host,
/// owner and repository (each non-empty and slash-free, the repository
/// not itself ending in `.git`), `extract_path` on
/// `https://<host>/<owner>/<repo>[.git]` yields exactly `(owner, repo)`
/// with only the trailing `.git` stripped, and when the host is a known
/// provider the URL passes `is_valid_url`.
pub proof fn lemma_url_parts_round_trip(
    host: Seq<char>,
    owner: Seq<char>,
    repo: Seq<char>,
    with_git: bool,
)
    requires
        host.len() > 0,
        !host.contains('/'),
        owner.len() > 0,
        !owner.contains('/'),
        repo.len() > 0,
        !repo.contains('/'),
        !spec_ends_with_git(repo),
    ensures
        ({
            let seg = if with_git {
                repo + ".git"@
            } else {
                repo
            };
            let url = "https://"@ + host + "/"@ + owner + "/"@ + seg;
            &&& spec_extract_path(url) == Some((owner, repo))
            &&& (host == "github.com"@ || host == "gitlab.com"@) ==> spec_is_valid_url(url)
        }),
{
    reveal_strlit("https://");
    reveal_strlit("/");
    reveal_strlit(".git");
    reveal_strlit("github.com");
    reveal_strlit("gitlab.com");
    reveal_strlit("github.com/");
    reveal_strlit("gitlab.com/");
    let seg = if with_git {
        repo + ".git"@
    } else {
        repo
    };
    let url = "https://"@ + host + "/"@ + owner + "/"@ + seg;
    assert(url.take(8) =~= "https://"@);
    assert(spec_scheme_len(url) == Some(8int));
    let rest = url.skip(8);
    assert(rest =~= host + "/"@ + owner + "/"@ + seg);

    // the first slash of `rest` ends the host
    assert(rest[host.len() as int] == '/');
    assert(forall|j: int| 0 <= j < host.len() ==> rest[j] == host[j]);
    lemma_index_of_first_is(rest, '/', host.len() as int);
    let p = rest.skip(host.len() as int + 1);
    assert(p =~= owner + "/"@ + seg);

    // `seg` holds no slash and, without the suffix, no dot
    assert(forall|j: int| 0 <= j < seg.len() ==> seg[j] != '/') by {
        assert(forall|j: int| 0 <= j < repo.len() ==> seg[j] != '/');
    }

    // the first and last slash of the path both end the owner
    assert(p[owner.len() as int] == '/');
    assert(forall|j: int| 0 <= j < owner.len() ==> p[j] == owner[j]);
    lemma_index_of_first_is(p, '/', owner.len() as int);
    assert(spec_before_first(p, '/') =~= owner);
    assert(forall|j: int| owner.len() < j < p.len() ==> p[j] == seg[j - owner.len() - 1]);
    lemma_index_of_last_is(p, '/', owner.len() as int);
    assert(spec_after_last(p, '/') =~= seg);

    // the segment with its trailing `.git` stripped is the repository
    if with_git {
        assert(seg.skip(seg.len() as int - 4) =~= ".git"@);
        assert(spec_ends_with_git(seg));
        assert(spec_strip_git(seg) =~= repo);
    } else {
        assert(seg == repo);
        assert(spec_strip_git(seg) == repo);
    }
    assert(spec_extract_path(url) == Some((owner, repo)));

    // a known host makes the URL valid
    if host == "github.com"@ || host == "gitlab.com"@ {
        assert(rest.take(11) =~= host + "/"@);
        assert(host == "github.com"@ ==> rest.take(11) =~= "github.com/"@);
        assert(host == "gitlab.com"@ ==> rest.take(11) =~= "gitlab.com/"@);
        let tail = rest.skip(11);
        assert(tail =~= owner + "/"@ + seg);
        assert(tail[owner.len() as int] == '/');
        lemma_index_of_first_is(tail, '/', owner.len() as int);
        assert(tail.skip(owner.len() as int + 1) =~= seg);
        assert(spec_valid_tail(tail));
    }
}

} // verus!
