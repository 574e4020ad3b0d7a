//! The remote-reference lister: the `git ls-remote` invocation that
//! the caller runs, and the verified parser of its output.

use crate::text::{find_from, from_chars, lemma_index_of_first_is, lemma_index_of_first_none,
    sub_vec, to_chars};
use crate::{Error, ErrorKind};
use vstd::prelude::*;
use vstd::string::StringExecFns;

verus! {

/// The subprocess invocation for listing a remote's references: the
/// command name and its arguments. Running it is the caller's
/// business; the output comes back to [`parse_remote_refs`].
pub struct Git<'a> {
    pub cmd: &'a str,
    pub args: Vec<&'a str>,
}

impl<'a> Git<'a> {
    /// A fresh `git` invocation with no arguments.
    pub fn new() -> (r: Git<'a>)
        ensures
            r.cmd@ == "git"@,
            r.args@.len() == 0,
    {
        Git { cmd: "git", args: Vec::new() }
    }

    /// Replaces the invocation's arguments.
    pub fn args(&mut self, args: Vec<&'a str>)
        ensures
            final(self).cmd == old(self).cmd,
            final(self).args == args,
    {
        self.args = args;
    }
}

/// One remote reference: its full name and its 40-character commit
/// hash, as one line of `git ls-remote` reports it.
#[derive(Debug, Clone, PartialEq)]
pub struct RemoteRef {
    pub hash: String,
    pub name: String,
}

/// The mathematical shape of a remote reference.
pub struct RemoteRefView {
    pub hash: Seq<char>,
    pub name: Seq<char>,
}

impl View for RemoteRef {
    type V = RemoteRefView;

    open spec fn view(&self) -> RemoteRefView {
        RemoteRefView { hash: self.hash@, name: self.name@ }
    }
}

/// What one output line yields: the text before a lone tab as the
/// hash and the text after it as the name; a line without exactly one
/// tab yields nothing.
pub open spec fn spec_parse_ref_line(l: Seq<char>) -> Option<RemoteRefView> {
    match l.index_of_first('\t') {
        Some(i) => if !l.skip(i + 1).contains('\t') {
            Some(RemoteRefView { hash: l.take(i), name: l.skip(i + 1) })
        } else {
            None
        },
        None => None,
    }
}

/// What the whole output yields: each line's reference, lines that do
/// not parse dropped, in the remote's order.
pub open spec fn spec_parse_refs(s: Seq<char>) -> Seq<RemoteRefView>
    decreases s.len(),
{
    if s.len() == 0 {
        Seq::<RemoteRefView>::empty()
    } else {
        match s.index_of_first('\n') {
            Some(i) => if 0 <= i < s.len() {
                (match spec_parse_ref_line(s.take(i)) {
                    Some(r) => seq![r] + spec_parse_refs(s.skip(i + 1)),
                    None => spec_parse_refs(s.skip(i + 1)),
                })
            } else {
                Seq::<RemoteRefView>::empty()
            },
            None => match spec_parse_ref_line(s) {
                Some(r) => seq![r],
                None => Seq::<RemoteRefView>::empty(),
            },
        }
    }
}

/// Parses one line: the text before a lone tab and the text after it.
fn parse_ref_line(cs: &Vec<char>, start: usize, end: usize) -> (r: Option<RemoteRef>)
    requires
        start <= end <= cs@.len(),
    ensures
        match r {
            Some(rr) => spec_parse_ref_line(cs@.subrange(start as int, end as int)) == Some(
                rr@,
            ),
            None => spec_parse_ref_line(cs@.subrange(start as int, end as int)) is None,
        },
{
    let ghost l = cs@.subrange(start as int, end as int);
    let line = sub_vec(cs, start, end);
    match find_from(&line, 0, '\t') {
        Some(i) => {
            proof {
                lemma_index_of_first_is(l, '\t', i as int);
            }
            match find_from(&line, i + 1, '\t') {
                Some(_) => {
                    proof {
                        let k = choose|k: int|
                            i + 1 <= k < line@.len() && line@[k] == '\t';
                        assert(l.skip(i + 1)[k - i - 1] == '\t');
                    }
                    None
                },
                None => {
                    let hash = sub_vec(&line, 0, i);
                    let name = sub_vec(&line, i + 1, line.len());
                    proof {
                        assert(hash@ =~= l.take(i as int));
                        assert(name@ =~= l.skip(i + 1));
                        assert(!l.skip(i + 1).contains('\t'));
                    }
                    Some(RemoteRef { hash: from_chars(&hash), name: from_chars(&name) })
                },
            }
        },
        None => {
            proof {
                lemma_index_of_first_none(l, '\t');
            }
            None
        },
    }
}

/// Parses the output of `git ls-remote`: one reference per line, the
/// hash and the name separated by a tab, in the remote's order. Lines
/// of any other shape are dropped. An output yielding no reference at
/// all — an empty or nonexistent repository — is an error.
pub fn parse_remote_refs(stdout: &str) -> (r: Result<Vec<RemoteRef>, Error>)
    ensures
        match r {
            Ok(v) => {
                &&& v@.map_values(|rr: RemoteRef| rr@) == spec_parse_refs(stdout@)
                &&& spec_parse_refs(stdout@).len() > 0
            },
            Err(e) => {
                &&& spec_parse_refs(stdout@).len() == 0
                &&& e.kind == ErrorKind::Transport
            },
        },
{
    let cs = to_chars(stdout);
    let mut out: Vec<RemoteRef> = Vec::new();
    let mut pos: usize = 0;
    proof {
        assert(cs@.skip(0) =~= cs@);
        assert(out@.map_values(|rr: RemoteRef| rr@) =~= Seq::<RemoteRefView>::empty());
        assert(Seq::<RemoteRefView>::empty() + spec_parse_refs(cs@) =~= spec_parse_refs(cs@));
    }
    while pos < cs.len()
        invariant
            0 <= pos <= cs@.len(),
            cs@ == stdout@,
            spec_parse_refs(stdout@) == out@.map_values(|rr: RemoteRef| rr@)
                + spec_parse_refs(cs@.skip(pos as int)),
        decreases cs@.len() - pos,
    {
        let ghost done = out@.map_values(|rr: RemoteRef| rr@);
        let ghost suffix = cs@.skip(pos as int);
        let line_end: usize;
        let next_pos: usize;
        match find_from(&cs, pos, '\n') {
            Some(i) => {
                proof {
                    lemma_index_of_first_is(suffix, '\n', i - pos);
                    assert(suffix.take(i - pos) =~= cs@.subrange(pos as int, i as int));
                    assert(suffix.skip(i - pos + 1) =~= cs@.skip(i + 1 as int));
                }
                line_end = i;
                next_pos = i + 1;
            },
            None => {
                proof {
                    lemma_index_of_first_none(suffix, '\n');
                    assert(suffix =~= cs@.subrange(pos as int, cs@.len() as int));
                    assert(cs@.skip(cs@.len() as int) =~= Seq::<char>::empty());
                }
                line_end = cs.len();
                next_pos = cs.len();
            },
        }
        match parse_ref_line(&cs, pos, line_end) {
            Some(rr) => {
                let ghost rv = rr@;
                out.push(rr);
                proof {
                    assert(out@.map_values(|rr: RemoteRef| rr@) =~= done.push(rv));
                    assert(done + (seq![rv] + spec_parse_refs(cs@.skip(next_pos as int)))
                        =~= done.push(rv) + spec_parse_refs(cs@.skip(next_pos as int)));
                }
            },
            None => {},
        }
        pos = next_pos;
    }
    proof {
        assert(cs@.skip(pos as int) =~= Seq::<char>::empty());
        let done = out@.map_values(|rr: RemoteRef| rr@);
        assert(done + Seq::<RemoteRefView>::empty() =~= done);
    }
    if out.len() == 0 {
        proof {
            assert(spec_parse_refs(stdout@).len() == 0);
        }
        return Err(Error::new(ErrorKind::Transport, String::from_str(
            "no remote references found",
        )));
    }
    Ok(out)
}

} // verus!
