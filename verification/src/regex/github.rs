//! The GitHub-only gate used by the plain git transport, and the raw
//! path splitter that keeps the last segment whole.

use crate::regex::{
    spec_url_path, spec_valid_tail, valid_tail_from,
};
use crate::text::{
    find_from, lemma_index_of_first_is, lemma_index_of_first_none, lemma_index_of_last_is,
    matches_at, rfind_from, spec_after_last, spec_before_first, to_chars,
};
use vstd::prelude::*;
use vstd::string::StrSliceExecFns;

verus! {

/// Whether `s` reads `https://github.com/<owner>/<repo>[.git]` with the
/// scheme optional.
pub open spec fn spec_is_github_url(s: Seq<char>) -> bool {
    let t = if s.len() >= 8 && s.take(8) == "https://"@ {
        s.skip(8)
    } else {
        s
    };
    &&& t.len() >= 11
    &&& t.take(11) == "github.com/"@
    &&& spec_valid_tail(t.skip(11))
}

/// What this module's `extract_path` returns: the first and the last
/// path segment, the latter kept whole.
pub open spec fn spec_extract_path_raw(s: Seq<char>) -> Option<(Seq<char>, Seq<char>)> {
    match spec_url_path(s) {
        Some(p) => Some((spec_before_first(p, '/'), spec_after_last(p, '/'))),
        None => None,
    }
}

/// Whether the input is a GitHub repository URL,
/// `https://github.com/<owner>/<repo>[.git]` with the scheme optional.
pub fn is_github_url(input: &str) -> (r: bool)
    ensures
        r == spec_is_github_url(input@),
{
    let cs = to_chars(input);
    let start: usize = if matches_at(&cs, 0, "https://") {
        8
    } else {
        0
    };
    proof {
        reveal_strlit("https://");
        reveal_strlit("github.com/");
    }
    if cs.len() < start {
        return false;
    }
    if matches_at(&cs, start, "github.com/") {
        let ok = valid_tail_from(&cs, start + 11);
        assert(cs@.skip(start as int).skip(11) =~= cs@.skip(start + 11));
        assert(cs@.skip(start as int).take(11) =~= cs@.subrange(
            start as int,
            start + 11,
        ));
        ok
    } else {
        assert(!spec_is_github_url(input@)) by {
            let t = if input@.len() >= 8 && input@.take(8) == "https://"@ {
                input@.skip(8)
            } else {
                input@
            };
            if t.len() >= 11 {
                assert(t.take(11) =~= cs@.subrange(start as int, start + 11));
            }
        }
        false
    }
}

/// Takes the URL apart into `(owner, last segment)` without cutting a
/// `.git` suffix off. None without a scheme, host or path.
pub fn extract_path<'a>(url: &'a str) -> (r: Option<(&'a str, &'a str)>)
    ensures
        match r {
            Some(p) => spec_extract_path_raw(url@) == Some((p.0@, p.1@)),
            None => spec_extract_path_raw(url@) is None,
        },
{
    let cs = to_chars(url);
    let h: usize;
    if matches_at(&cs, 0, "https://") {
        h = 8;
        proof {
            reveal_strlit("https://");
        }
    } else if matches_at(&cs, 0, "http://") {
        h = 7;
        proof {
            reveal_strlit("https://");
            reveal_strlit("http://");
        }
    } else {
        return None;
    }
    let ghost rest = url@.skip(h as int);
    let slash = match find_from(&cs, h, '/') {
        Some(i) => i,
        None => {
            proof {
                lemma_index_of_first_none(rest, '/');
            }
            return None;
        },
    };
    proof {
        lemma_index_of_first_is(rest, '/', slash - h);
    }
    if slash == h {
        return None;
    }
    let ghost p = rest.skip(slash - h + 1);
    assert(p =~= url@.skip(slash + 1));

    let owner_end = match find_from(&cs, slash + 1, '/') {
        Some(k) => {
            proof {
                lemma_index_of_first_is(p, '/', k - slash - 1);
            }
            k
        },
        None => {
            proof {
                lemma_index_of_first_none(p, '/');
            }
            cs.len()
        },
    };
    let owner = url.substring_char(slash + 1, owner_end);
    assert(owner@ =~= spec_before_first(p, '/'));

    let seg_start = match rfind_from(&cs, slash + 1, '/') {
        Some(m) => {
            proof {
                lemma_index_of_last_is(p, '/', m - slash - 1);
            }
            m + 1
        },
        None => slash + 1,
    };
    let repo = url.substring_char(seg_start, cs.len());
    assert(repo@ =~= spec_after_last(p, '/'));
    Some((owner, repo))
}

} // verus!
