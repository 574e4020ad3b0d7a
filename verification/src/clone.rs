//! The acquisition planner: which transport a request takes, which
//! remote reference it lands on, which archive URL serves it, and
//! what is done to the destination afterwards. The caller performs
//! the subprocess, network and filesystem work these plans call for.

use crate::fetch::config::Config;
use crate::git::{RemoteRef, RemoteRefView};
use crate::models::{Mode, Site};
use crate::regex::spec_is_valid_url;
use crate::text::{append_str, chars_eq, from_chars, to_chars};
use crate::{Error, ErrorKind};
use vstd::prelude::*;
use vstd::string::StringExecFns;

verus! {

/// The two ways a source is materialized.
#[derive(Debug, Clone, PartialEq, Eq)]
pub enum TransportKind {
    Git,
    Tar,
}

/// Chooses the transport for the requested mode; a request whose mode
/// is unknown is rejected before any work is done.
pub fn select_transport(mode: &Mode) -> (r: Result<TransportKind, Error>)
    ensures
        mode == Mode::Git ==> (r matches Ok(t) && t == TransportKind::Git),
        mode == Mode::Tar ==> (r matches Ok(t) && t == TransportKind::Tar),
        mode == Mode::Unknown ==> (r matches Err(e) && e.kind == ErrorKind::Input),
{
    match mode {
        Mode::Git => Ok(TransportKind::Git),
        Mode::Tar => Ok(TransportKind::Tar),
        Mode::Unknown => Err(Error::new(ErrorKind::Input, String::from_str("invalid mode"))),
    }
}

/// What the git transport is asked to do once the URL has been
/// accepted.
#[derive(Debug)]
pub struct GitClonePlan {
    /// The branch the clone is restricted to, when one was named.
    pub branch: Option<String>,
    /// Whether the caller must ask which branch to clone.
    pub interactive: bool,
    /// Whether the version-control metadata directory is deleted
    /// after the clone, leaving only working-copy files.
    pub remove_vcs_dir: bool,
}

/// Plans a git-protocol clone. The URL must be a well-formed hosted
/// URL, else the request is rejected with an input error before any
/// subprocess runs. The metadata directory is removed exactly when
/// the request does not keep history; a branch named `INTERACTIVE`
/// stands for the caller's interactive choice.
pub fn plan_git_clone(url: &str, config: &Config) -> (r: Result<GitClonePlan, Error>)
    ensures
        r is Ok <==> spec_is_valid_url(url@),
        r matches Ok(p) ==> {
            &&& p.remove_vcs_dir == !config.keep_history
            &&& (match config.branch {
                Some(b) => if b@ == "INTERACTIVE"@ {
                    p.interactive && p.branch is None
                } else {
                    !p.interactive && (p.branch matches Some(x) && x@ == b@)
                },
                None => !p.interactive && p.branch is None,
            })
        },
        r matches Err(e) ==> e.kind == ErrorKind::Input,
{
    let valid = match crate::regex::is_valid_url(url) {
        Ok(v) => v,
        Err(e) => {
            return Err(e);
        },
    };
    if !valid {
        return Err(Error::new(ErrorKind::Input, String::from_str(
            "the source is not a valid URL",
        )));
    }
    let (branch, interactive) = match config.branch {
        Some(b) => {
            if crate::text::str_eq(b.as_str(), "INTERACTIVE") {
                (None, true)
            } else {
                (Some(b.clone()), false)
            }
        },
        None => (None, false),
    };
    Ok(GitClonePlan { branch, interactive, remove_vcs_dir: !config.keep_history })
}

/// Admits a request to the archive transport: it never performs a
/// version-controlled clone, so a request that keeps history is
/// turned away and the caller may offer the git transport instead.
pub fn validate_tar_request(keep_history: bool) -> (r: Result<(), Error>)
    ensures
        r is Ok <==> !keep_history,
        r matches Err(e) ==> e.kind == ErrorKind::StateConflict,
{
    if keep_history {
        Err(Error::new(ErrorKind::StateConflict, String::from_str(
            "tar mode does not keep history",
        )))
    } else {
        Ok(())
    }
}

/// The branch names among the references: the names under
/// `refs/heads/`, the prefix stripped, in remote order.
pub open spec fn spec_branch_names(rs: Seq<RemoteRefView>) -> Seq<Seq<char>>
    decreases rs.len(),
{
    if rs.len() == 0 {
        Seq::<Seq<char>>::empty()
    } else {
        let rest = spec_branch_names(rs.drop_first());
        if rs[0].name.len() >= 11 && rs[0].name.take(11) == "refs/heads/"@ {
            seq![rs[0].name.skip(11)] + rest
        } else {
            rest
        }
    }
}

/// The branch and tag names among the references: the names under
/// `refs/heads/` and `refs/tags/`, the prefix stripped, in remote
/// order.
pub open spec fn spec_branch_and_tag_names(rs: Seq<RemoteRefView>) -> Seq<Seq<char>>
    decreases rs.len(),
{
    if rs.len() == 0 {
        Seq::<Seq<char>>::empty()
    } else {
        let rest = spec_branch_and_tag_names(rs.drop_first());
        if rs[0].name.len() >= 11 && rs[0].name.take(11) == "refs/heads/"@ {
            seq![rs[0].name.skip(11)] + rest
        } else if rs[0].name.len() >= 10 && rs[0].name.take(10) == "refs/tags/"@ {
            seq![rs[0].name.skip(10)] + rest
        } else {
            rest
        }
    }
}

/// The branch names offered for an interactive git clone, in remote
/// order.
pub fn filter_branch_names(refs: &Vec<RemoteRef>) -> (r: Vec<String>)
    ensures
        r@.map_values(|s: String| s@) == spec_branch_names(
            refs@.map_values(|rr: RemoteRef| rr@),
        ),
{
    proof {
        reveal_strlit("refs/heads/");
    }
    let ghost views = refs@.map_values(|rr: RemoteRef| rr@);
    let mut out: Vec<String> = Vec::new();
    let mut i: usize = 0;
    proof {
        assert(views.skip(0) =~= views);
        assert(out@.map_values(|s: String| s@) =~= Seq::<Seq<char>>::empty());
        assert(Seq::<Seq<char>>::empty() + spec_branch_names(views) =~= spec_branch_names(
            views,
        ));
    }
    while i < refs.len()
        invariant
            0 <= i <= refs@.len(),
            views == refs@.map_values(|rr: RemoteRef| rr@),
            spec_branch_names(views) == out@.map_values(|s: String| s@) + spec_branch_names(
                views.skip(i as int),
            ),
        decreases refs@.len() - i,
    {
        let ghost done = out@.map_values(|s: String| s@);
        proof {
            assert(views.skip(i as int)[0] == views[i as int]);
            assert(views.skip(i as int).drop_first() =~= views.skip(i + 1 as int));
        }
        let nv = to_chars(refs[i].name.as_str());
        if matches_prefix(&nv, "refs/heads/") {
            proof {
                reveal_strlit("refs/heads/");
                assert("refs/heads/"@.len() == 11);
            }
            let stripped = crate::text::sub_vec(&nv, 11, nv.len());
            proof {
                assert(stripped@ =~= views[i as int].name.skip(11));
            }
            out.push(from_chars(&stripped));
            proof {
                assert(out@.map_values(|s: String| s@) =~= done.push(
                    views[i as int].name.skip(11),
                ));
                assert(done + (seq![views[i as int].name.skip(11)] + spec_branch_names(
                    views.skip(i + 1 as int),
                )) =~= done.push(views[i as int].name.skip(11)) + spec_branch_names(
                    views.skip(i + 1 as int),
                ));
            }
        }
        i += 1;
    }
    proof {
        assert(views.skip(views.len() as int) =~= Seq::<RemoteRefView>::empty());
        let done = out@.map_values(|s: String| s@);
        assert(done + Seq::<Seq<char>>::empty() =~= done);
    }
    out
}

/// The branch and tag names offered for an interactive archive clone,
/// in remote order.
pub fn filter_branch_and_tag_names(refs: &Vec<RemoteRef>) -> (r: Vec<String>)
    ensures
        r@.map_values(|s: String| s@) == spec_branch_and_tag_names(
            refs@.map_values(|rr: RemoteRef| rr@),
        ),
{
    proof {
        reveal_strlit("refs/heads/");
        reveal_strlit("refs/tags/");
    }
    let ghost views = refs@.map_values(|rr: RemoteRef| rr@);
    let mut out: Vec<String> = Vec::new();
    let mut i: usize = 0;
    proof {
        assert(views.skip(0) =~= views);
        assert(out@.map_values(|s: String| s@) =~= Seq::<Seq<char>>::empty());
        assert(Seq::<Seq<char>>::empty() + spec_branch_and_tag_names(views)
            =~= spec_branch_and_tag_names(views));
    }
    while i < refs.len()
        invariant
            0 <= i <= refs@.len(),
            views == refs@.map_values(|rr: RemoteRef| rr@),
            spec_branch_and_tag_names(views) == out@.map_values(|s: String| s@)
                + spec_branch_and_tag_names(views.skip(i as int)),
        decreases refs@.len() - i,
    {
        let ghost done = out@.map_values(|s: String| s@);
        proof {
            assert(views.skip(i as int)[0] == views[i as int]);
            assert(views.skip(i as int).drop_first() =~= views.skip(i + 1 as int));
        }
        let nv = to_chars(refs[i].name.as_str());
        let keep: Option<usize> = if matches_prefix(&nv, "refs/heads/") {
            Some(11)
        } else if matches_prefix(&nv, "refs/tags/") {
            Some(10)
        } else {
            None
        };
        match keep {
            Some(plen) => {
                proof {
                    reveal_strlit("refs/heads/");
                    reveal_strlit("refs/tags/");
                    assert("refs/heads/"@.len() == 11);
                    assert("refs/tags/"@.len() == 10);
                }
                let stripped = crate::text::sub_vec(&nv, plen, nv.len());
                proof {
                    assert(stripped@ =~= views[i as int].name.skip(plen as int));
                }
                out.push(from_chars(&stripped));
                proof {
                    let sv = views[i as int].name.skip(plen as int);
                    assert(out@.map_values(|s: String| s@) =~= done.push(sv));
                    assert(done + (seq![sv] + spec_branch_and_tag_names(
                        views.skip(i + 1 as int),
                    )) =~= done.push(sv) + spec_branch_and_tag_names(views.skip(i + 1 as int)));
                }
            },
            None => {},
        }
        i += 1;
    }
    proof {
        assert(views.skip(views.len() as int) =~= Seq::<RemoteRefView>::empty());
        let done = out@.map_values(|s: String| s@);
        assert(done + Seq::<Seq<char>>::empty() =~= done);
    }
    out
}

/// Whether the vector starts with the literal.
fn matches_prefix(v: &Vec<char>, lit: &str) -> (r: bool)
    ensures
        r == (v@.len() >= lit@.len() && v@.take(lit@.len() as int) == lit@),
{
    let r = crate::text::matches_at(v, 0, lit);
    proof {
        if v@.len() >= lit@.len() {
            assert(v@.subrange(0, lit@.len() as int) =~= v@.take(lit@.len() as int));
        }
    }
    r
}

/// Whether the reference carries the requested branch or tag name.
pub open spec fn spec_ref_matches(r: RemoteRefView, b: Seq<char>) -> bool {
    r.name == "refs/heads/"@ + b || r.name == "refs/tags/"@ + b
}

/// Whether `h` is the hash of the first reference carrying `b`.
pub open spec fn spec_first_match_hash(
    views: Seq<RemoteRefView>,
    b: Seq<char>,
    h: Seq<char>,
) -> bool {
    exists|i: int|
        0 <= i < views.len() && spec_ref_matches(#[trigger] views[i], b) && h == views[i].hash
            && (forall|j: int| 0 <= j < i ==> !spec_ref_matches(#[trigger] views[j], b))
}

/// Whether `h` is the hash of the first reference named `HEAD`.
pub open spec fn spec_head_hash(views: Seq<RemoteRefView>, h: Seq<char>) -> bool {
    exists|i: int|
        0 <= i < views.len() && (#[trigger] views[i]).name == "HEAD"@ && h == views[i].hash
            && (forall|j: int| 0 <= j < i ==> views[j].name != "HEAD"@)
}

/// Resolves the commit hash an archive request lands on. A named
/// branch or tag takes the hash of the first reference carrying it;
/// without one, the remote's `HEAD` decides. A name no reference
/// carries, or a remote without `HEAD`, is a conflict the caller
/// reports.
pub fn resolve_ref_hash(refs: &Vec<RemoteRef>, branch: Option<&String>) -> (r: Result<
    String,
    Error,
>)
    ensures
        ({
            let views = refs@.map_values(|rr: RemoteRef| rr@);
            match branch {
                Some(b) => match r {
                    Ok(h) => spec_first_match_hash(views, b@, h@),
                    Err(e) => (forall|i: int|
                        0 <= i < views.len() ==> !spec_ref_matches(#[trigger] views[i], b@))
                        && e.kind == ErrorKind::StateConflict,
                },
                None => match r {
                    Ok(h) => spec_head_hash(views, h@),
                    Err(e) => (forall|i: int|
                        0 <= i < views.len() ==> (#[trigger] views[i]).name != "HEAD"@)
                        && e.kind == ErrorKind::StateConflict,
                },
            }
        }),
{
    let ghost views = refs@.map_values(|rr: RemoteRef| rr@);
    match branch {
        Some(b) => {
            let mut head_name: Vec<char> = to_chars("refs/heads/");
            append_str(&mut head_name, b.as_str());
            let mut tag_name: Vec<char> = to_chars("refs/tags/");
            append_str(&mut tag_name, b.as_str());
            let mut i: usize = 0;
            while i < refs.len()
                invariant
                    0 <= i <= refs@.len(),
                    views == refs@.map_values(|rr: RemoteRef| rr@),
                    branch == Some(b),
                    head_name@ == "refs/heads/"@ + b@,
                    tag_name@ == "refs/tags/"@ + b@,
                    forall|j: int| 0 <= j < i ==> !spec_ref_matches(#[trigger] views[j], b@),
                decreases refs@.len() - i,
            {
                let nv = to_chars(refs[i].name.as_str());
                proof {
                    assert(views[i as int] == refs@[i as int]@);
                }
                if chars_eq(&nv, &head_name) || chars_eq(&nv, &tag_name) {
                    proof {
                        assert(spec_ref_matches(views[i as int], b@));
                    }
                    let ghost wi = i as int;
                    let h = refs[i].hash.clone();
                    proof {
                        assert(h@ == views[wi].hash);
                        assert(spec_first_match_hash(views, b@, h@)) by {
                            assert(0 <= wi < views.len() && spec_ref_matches(
                                #[trigger] views[wi],
                                b@,
                            ) && h@ == views[wi].hash && (forall|j: int|
                                0 <= j < wi ==> !spec_ref_matches(#[trigger] views[j], b@)));
                        }
                    }
                    return Ok(h);
                }
                proof {
                    assert(!spec_ref_matches(views[i as int], b@));
                }
                i += 1;
            }
            Err(Error::new(ErrorKind::StateConflict, String::from_str(
                "branch or tag not found",
            )))
        },
        None => {
            let head = to_chars("HEAD");
            proof {
                reveal_strlit("HEAD");
            }
            let mut i: usize = 0;
            while i < refs.len()
                invariant
                    0 <= i <= refs@.len(),
                    views == refs@.map_values(|rr: RemoteRef| rr@),
                    branch is None,
                    head@ == "HEAD"@,
                    forall|j: int| 0 <= j < i ==> (#[trigger] views[j]).name != "HEAD"@,
                decreases refs@.len() - i,
            {
                let nv = to_chars(refs[i].name.as_str());
                proof {
                    assert(views[i as int] == refs@[i as int]@);
                }
                if chars_eq(&nv, &head) {
                    proof {
                        assert(views[i as int].name == "HEAD"@);
                    }
                    let ghost wi = i as int;
                    let h = refs[i].hash.clone();
                    proof {
                        assert(h@ == views[wi].hash);
                        assert(spec_head_hash(views, h@)) by {
                            assert(0 <= wi < views.len() && (#[trigger] views[wi]).name
                                == "HEAD"@ && h@ == views[wi].hash && (forall|j: int|
                                0 <= j < wi ==> views[j].name != "HEAD"@));
                        }
                    }
                    return Ok(h);
                }
                i += 1;
            }
            Err(Error::new(ErrorKind::StateConflict, String::from_str(
                "no HEAD reference found",
            )))
        },
    }
}

/// Builds the provider's archive URL for the resolved commit. GitHub
/// and GitLab each have their own layout; a source on an unknown host
/// is rejected without any request being attempted.
pub fn build_archive_url(site: &Site, owner: &str, repo: &str, hash: &str) -> (r: Result<
    String,
    Error,
>)
    ensures
        site == Site::Github ==> (r matches Ok(u) && u@ == "https://github.com/"@ + owner@
            + "/"@ + repo@ + "/archive/"@ + hash@ + ".tar.gz"@),
        site == Site::Gitlab ==> (r matches Ok(u) && u@ == "https://gitlab.com/"@ + owner@
            + "/"@ + repo@ + "/repository/archive.tar.gz?ref="@ + hash@),
        site == Site::Unknown ==> (r matches Err(e) && e.kind == ErrorKind::Input),
{
    match site {
        Site::Github => {
            let mut out: Vec<char> = to_chars("https://github.com/");
            append_str(&mut out, owner);
            append_str(&mut out, "/");
            append_str(&mut out, repo);
            append_str(&mut out, "/archive/");
            append_str(&mut out, hash);
            append_str(&mut out, ".tar.gz");
            Ok(from_chars(&out))
        },
        Site::Gitlab => {
            let mut out: Vec<char> = to_chars("https://gitlab.com/");
            append_str(&mut out, owner);
            append_str(&mut out, "/");
            append_str(&mut out, repo);
            append_str(&mut out, "/repository/archive.tar.gz?ref=");
            append_str(&mut out, hash);
            Ok(from_chars(&out))
        },
        Site::Unknown => Err(Error::new(ErrorKind::Input, String::from_str(
            "cannot build an archive URL for an unknown host",
        ))),
    }
}

} // verus!
