//! The destination sanitizer: confines a requested destination to the
//! working directory without touching the filesystem.

use crate::text::{from_chars, matches_at, to_chars};
use crate::{Error, ErrorKind};
use vstd::prelude::*;

verus! {

/// Whether the path is absolute: it starts with a slash.
pub open spec fn spec_is_absolute(s: Seq<char>) -> bool {
    s.len() > 0 && s[0] == '/'
}

/// Whether a parent-directory component stands at position `i`: two
/// dots bounded by slashes or the ends of the string.
pub open spec fn spec_traversal_at(s: Seq<char>, i: int) -> bool {
    &&& 0 <= i
    &&& i + 2 <= s.len()
    &&& s[i] == '.'
    &&& s[i + 1] == '.'
    &&& (i == 0 || s[i - 1] == '/')
    &&& (i + 2 == s.len() || s[i + 2] == '/')
}

/// Whether any component of the path is a parent-directory marker.
pub open spec fn spec_has_traversal(s: Seq<char>) -> bool {
    exists|i: int| spec_traversal_at(s, i)
}

/// Whether `p` lies under `c` component-wise: `c` leads `p`, and the
/// next character of `p`, if any, starts a new component.
pub open spec fn spec_starts_with_dir(p: Seq<char>, c: Seq<char>) -> bool {
    &&& p.len() >= c.len()
    &&& p.take(c.len() as int) == c
    &&& (p.len() == c.len() || p[c.len() as int] == '/' || (c.len() > 0 && c[c.len() - 1]
        == '/'))
}

/// The requested path resolved against the working directory: an
/// absolute path stands as it is, a relative one is joined on.
pub open spec fn spec_joined(path: Seq<char>, cur: Seq<char>) -> Seq<char> {
    if cur.len() > 0 && cur[cur.len() - 1] == '/' {
        cur + path
    } else {
        cur + "/"@ + path
    }
}

/// Whether the destination is accepted: an absolute path must lie
/// under the working directory; a relative one must be free of
/// parent-directory components.
pub open spec fn spec_sanitize_ok(path: Seq<char>, cur: Seq<char>) -> bool {
    if spec_is_absolute(path) {
        spec_starts_with_dir(path, cur)
    } else {
        !spec_has_traversal(path)
    }
}

/// Whether any component of the path is a parent-directory marker.
fn has_traversal(v: &Vec<char>) -> (r: bool)
    ensures
        r == spec_has_traversal(v@),
{
    let mut i: usize = 0;
    while i < v.len()
        invariant
            0 <= i <= v@.len(),
            forall|j: int| j < i ==> !spec_traversal_at(v@, j),
        decreases v@.len() - i,
    {
        if v[i] == '.' && i + 1 < v.len() && v[i + 1] == '.' && (i == 0 || v[i - 1] == '/') && (i
            + 2 == v.len() || v[i + 2] == '/') {
            assert(spec_traversal_at(v@, i as int));
            return true;
        }
        assert(!spec_traversal_at(v@, i as int));
        i += 1;
    }
    assert(forall|j: int| j >= v@.len() ==> !spec_traversal_at(v@, j));
    false
}

/// Whether any component of the path is a parent-directory marker.
pub fn has_traversal_path(path: &str) -> (r: bool)
    ensures
        r == spec_has_traversal(path@),
{
    let cs = to_chars(path);
    has_traversal(&cs)
}

/// Confines the requested destination to the working directory
/// `current_dir`, without touching the filesystem and without
/// following symlinks. An absolute path is accepted only under the
/// working directory and returned as it is; a relative path is
/// rejected if any of its components walks upward, and otherwise
/// joined onto the working directory.
pub fn sanitize_dir(path: &str, current_dir: &str) -> (r: Result<String, Error>)
    ensures
        r is Ok <==> spec_sanitize_ok(path@, current_dir@),
        r matches Ok(p) ==> p@ == if spec_is_absolute(path@) {
            path@
        } else {
            spec_joined(path@, current_dir@)
        },
        r matches Err(e) ==> e.kind == ErrorKind::Input,
{
    let pv = to_chars(path);
    let cv = to_chars(current_dir);
    if pv.len() > 0 && pv[0] == '/' {
        if matches_at(&pv, 0, current_dir) {
            let under = if pv.len() == cv.len() {
                true
            } else if cv.len() > 0 && cv[cv.len() - 1] == '/' {
                true
            } else {
                pv.len() > cv.len() && pv[cv.len()] == '/'
            };
            if under {
                assert(pv@.subrange(0, current_dir@.len() as int) =~= pv@.take(
                    current_dir@.len() as int,
                ));
                return Ok(String::from_str(path));
            }
        }
        assert(pv@.len() >= current_dir@.len() ==> pv@.subrange(0, current_dir@.len() as int)
            =~= pv@.take(current_dir@.len() as int));
        return Err(Error::new(ErrorKind::Input, String::from_str(
            "forbidden: absolute path is outside the current working directory",
        )));
    }
    if has_traversal(&pv) {
        return Err(Error::new(ErrorKind::Input, String::from_str(
            "forbidden: path contains traversal components",
        )));
    }
    let mut out = cv;
    if out.len() == 0 || out[out.len() - 1] != '/' {
        out.push('/');
        assert(out@ =~= current_dir@ + "/"@) by {
            reveal_strlit("/");
        }
    }
    let mut i: usize = 0;
    let ghost base = out@;
    while i < pv.len()
        invariant
            0 <= i <= pv@.len(),
            out@ == base + pv@.take(i as int),
        decreases pv@.len() - i,
    {
        out.push(pv[i]);
        assert(out@ =~= base + pv@.take(i + 1 as int));
        i += 1;
    }
    assert(pv@.take(pv@.len() as int) =~= pv@);
    Ok(from_chars(&out))
}

} // verus!
