//! Safe archive extraction: decoding a gzip-tar archive held in
//! memory, stripping the provider-generated top-level directory from
//! every entry, and dropping any entry that could land outside the
//! destination.

pub mod cache;
pub mod path;

use crate::text::{find_from, from_chars, sub_vec, to_chars};
use crate::{Error, ErrorKind};
use vstd::prelude::*;

verus! {

/// What decoding the archive bytes yields: the entries of the
/// gzip-compressed tar stream, in order, each with its path, its
/// contents and whether it is a directory; none when the bytes are not
/// such an archive. The decoding depends on the bytes alone.
pub uninterp spec fn spec_archive_entries(bytes: Seq<u8>) -> Option<
    Seq<(Seq<char>, Seq<u8>, bool)>,
>;

/// Relies on flate2's `GzDecoder` and tar's `Archive`: decompressing
/// and reading the in-memory archive yields its entries in order, with
/// their paths, contents and directory flags; a malformed archive is
/// an error.
#[verifier::external_body]
fn decode_archive(bytes: &Vec<u8>) -> (r: Result<Vec<(String, Vec<u8>, bool)>, String>)
    ensures
        match r {
            Ok(es) => spec_archive_entries(bytes@) == Some(
                es@.map_values(|e: (String, Vec<u8>, bool)| (e.0@, e.1@, e.2)),
            ),
            Err(_) => spec_archive_entries(bytes@) is None,
        },
{
    let mut archive = tar::Archive::new(flate2::read::GzDecoder::new(bytes.as_slice()));
    let mut out = Vec::new();
    for res in archive.entries().map_err(|e| e.to_string())? {
        let mut e = res.map_err(|e| e.to_string())?;
        let p = e.path().map_err(|e| e.to_string())?.to_string_lossy().into_owned();
        let d = e.header().entry_type().is_dir();
        let mut body = Vec::new();
        std::io::Read::read_to_end(&mut e, &mut body).map_err(|e| e.to_string())?;
        out.push((p, body, d));
    }
    Ok(out)
}

/// Whether a path segment is kept: non-empty and not the
/// current-directory marker.
pub open spec fn spec_keep_segment(seg: Seq<char>) -> bool {
    seg.len() > 0 && seg != "."@
}

/// The segments of a slash-separated path, empty and
/// current-directory segments dropped.
pub open spec fn spec_segments(s: Seq<char>) -> Seq<Seq<char>>
    decreases s.len(),
{
    match s.index_of_first('/') {
        Some(i) => if 0 <= i < s.len() {
            let head = s.take(i);
            let rest = spec_segments(s.skip(i + 1));
            if spec_keep_segment(head) {
                seq![head] + rest
            } else {
                rest
            }
        } else {
            Seq::<Seq<char>>::empty()
        },
        None => if spec_keep_segment(s) {
            seq![s]
        } else {
            Seq::<Seq<char>>::empty()
        },
    }
}

/// The segments joined back with single slashes.
pub open spec fn spec_join_segments(segs: Seq<Seq<char>>) -> Seq<char>
    decreases segs.len(),
{
    if segs.len() == 0 {
        Seq::<char>::empty()
    } else if segs.len() == 1 {
        segs[0]
    } else {
        segs[0] + "/"@ + spec_join_segments(segs.drop_first())
    }
}

/// What sanitizing an entry path yields: its segments with the
/// provider's top-level directory dropped, joined back together —
/// none when nothing remains or a segment walks upward.
pub open spec fn spec_sanitize_entry(s: Seq<char>) -> Option<Seq<char>> {
    let segs = spec_segments(s);
    if segs.len() <= 1 {
        None
    } else if exists|k: int| 0 <= k < segs.len() && segs[k] == ".."@ {
        None
    } else {
        Some(spec_join_segments(segs.drop_first()))
    }
}

/// Whether a relative path is confined: it has at least one segment
/// and none of its segments walks upward.
pub open spec fn spec_entry_safe(p: Seq<char>) -> bool {
    &&& spec_segments(p).len() >= 1
    &&& forall|k: int| 0 <= k < spec_segments(p).len() ==> spec_segments(p)[k] != ".."@
}

/// Resolving a relative path against a base directory, one segment at
/// a time: an upward segment leaves the deepest directory, any other
/// segment enters one.
pub open spec fn spec_resolve(base: Seq<Seq<char>>, rel: Seq<Seq<char>>) -> Seq<Seq<char>>
    decreases rel.len(),
{
    if rel.len() == 0 {
        base
    } else if rel[0] == ".."@ {
        spec_resolve(base.drop_last(), rel.drop_first())
    } else {
        spec_resolve(base.push(rel[0]), rel.drop_first())
    }
}

/// A path without upward segments stays under the directory it is
/// resolved against: the destination remains a prefix of the resolved
/// path. Together with the sanitizer's contract, no extracted entry
/// can land outside the destination.
pub proof fn lemma_confined_resolution(base: Seq<Seq<char>>, rel: Seq<Seq<char>>)
    requires
        forall|k: int| 0 <= k < rel.len() ==> rel[k] != ".."@,
    ensures
        base.is_prefix_of(spec_resolve(base, rel)),
    decreases rel.len(),
{
    if rel.len() > 0 {
        let b2 = base.push(rel[0]);
        assert(forall|k: int| 0 <= k < rel.drop_first().len() ==> rel.drop_first()[k] != ".."@);
        lemma_confined_resolution(b2, rel.drop_first());
        assert(base.is_prefix_of(b2));
        assert(b2.is_prefix_of(spec_resolve(b2, rel.drop_first())));
        assert(base.is_prefix_of(spec_resolve(base, rel)));
    }
}

/// Splitting the joined segments gives the segments back.
proof fn lemma_segments_of_join(segs: Seq<Seq<char>>)
    requires
        forall|k: int|
            0 <= k < segs.len() ==> spec_keep_segment(#[trigger] segs[k]) && !segs[k].contains(
                '/',
            ),
    ensures
        spec_segments(spec_join_segments(segs)) == segs,
    decreases segs.len(),
{
    reveal_strlit("/");
    if segs.len() == 0 {
        assert(spec_join_segments(segs).len() == 0);
        crate::text::lemma_index_of_first_none(spec_join_segments(segs), '/');
        assert(spec_segments(spec_join_segments(segs)) =~= segs);
    } else if segs.len() == 1 {
        let s = segs[0];
        assert(forall|j: int| 0 <= j < s.len() ==> s[j] != '/');
        crate::text::lemma_index_of_first_none(s, '/');
        assert(spec_segments(s) =~= segs);
    } else {
        let s = spec_join_segments(segs);
        let head = segs[0];
        let tail = spec_join_segments(segs.drop_first());
        assert(s =~= head + "/"@ + tail);
        assert(s[head.len() as int] == '/');
        assert(forall|j: int| 0 <= j < head.len() ==> s[j] == head[j]);
        crate::text::lemma_index_of_first_is(s, '/', head.len() as int);
        assert(s.take(head.len() as int) =~= head);
        assert(s.skip(head.len() as int + 1) =~= tail);
        lemma_segments_of_join(segs.drop_first());
        assert(spec_segments(s) =~= seq![head] + segs.drop_first());
        assert(seq![head] + segs.drop_first() =~= segs);
    }
}

/// Every segment that the splitter keeps is non-empty, slash-free and
/// not the current-directory marker.
proof fn lemma_segments_wf(s: Seq<char>)
    ensures
        forall|k: int|
            0 <= k < spec_segments(s).len() ==> spec_keep_segment(#[trigger] spec_segments(s)[k])
                && !spec_segments(s)[k].contains('/'),
    decreases s.len(),
{
    s.index_of_first_ensures('/');
    match s.index_of_first('/') {
        Some(i) => {
            lemma_segments_wf(s.skip(i + 1));
            let head = s.take(i);
            let rest = spec_segments(s.skip(i + 1));
            assert(forall|j: int| 0 <= j < head.len() ==> head[j] != '/');
            assert(!head.contains('/'));
            if spec_keep_segment(head) {
                assert(spec_segments(s) == seq![head] + rest);
                assert forall|k: int| 0 <= k < spec_segments(s).len() implies spec_keep_segment(
                    #[trigger] spec_segments(s)[k],
                ) && !spec_segments(s)[k].contains('/') by {
                    if k == 0 {
                        assert(spec_segments(s)[0] == head);
                    } else {
                        assert(spec_segments(s)[k] == rest[k - 1]);
                    }
                }
            } else {
                assert(spec_segments(s) == rest);
            }
        },
        None => {
            assert(forall|j: int| 0 <= j < s.len() ==> s[j] != '/');
            assert(!s.contains('/'));
        },
    }
}

/// One file or directory to create under the destination, with its
/// path already stripped and confined.
#[derive(Debug)]
pub struct ExtractedEntry {
    pub path: String,
    pub data: Vec<u8>,
    pub is_dir: bool,
}

/// Splits a path into its segments, dropping empty and
/// current-directory segments.
fn split_segments(path: &str) -> (r: Vec<String>)
    ensures
        r@.map_values(|s: String| s@) == spec_segments(path@),
{
    let cs = to_chars(path);
    let mut out: Vec<String> = Vec::new();
    let mut pos: usize = 0;
    let ghost whole = cs@;
    proof {
        assert(cs@.skip(0) =~= cs@);
        assert(out@.map_values(|s: String| s@) =~= Seq::<Seq<char>>::empty());
        assert(Seq::<Seq<char>>::empty() + spec_segments(cs@) =~= spec_segments(cs@));
    }
    loop
        invariant
            0 <= pos <= cs@.len(),
            cs@ == path@,
            spec_segments(path@) == out@.map_values(|s: String| s@) + spec_segments(
                cs@.skip(pos as int),
            ),
        decreases cs@.len() - pos + 1,
    {
        let ghost done = out@.map_values(|s: String| s@);
        let ghost suffix = cs@.skip(pos as int);
        match find_from(&cs, pos, '/') {
            Some(i) => {
                proof {
                    crate::text::lemma_index_of_first_is(suffix, '/', i - pos);
                }
                let seg = sub_vec(&cs, pos, i);
                proof {
                    assert(seg@ =~= suffix.take(i - pos));
                    assert(cs@.skip(i + 1 as int) =~= suffix.skip(i - pos + 1));
                }
                if seg.len() > 0 && !(seg.len() == 1 && seg[0] == '.') {
                    proof {
                        assert(seg@ != "."@) by {
                            reveal_strlit(".");
                            if seg@ == "."@ {
                                assert(seg@.len() == 1 && seg@[0] == '.');
                            }
                        }
                    }
                    out.push(from_chars(&seg));
                    proof {
                        assert(out@.map_values(|s: String| s@) =~= done.push(seg@));
                        assert(done + (seq![seg@] + spec_segments(cs@.skip(i + 1 as int)))
                            =~= done.push(seg@) + spec_segments(cs@.skip(i + 1 as int)));
                    }
                } else {
                    proof {
                        assert(!spec_keep_segment(seg@)) by {
                            reveal_strlit(".");
                            if seg@.len() == 1 && seg@[0] == '.' {
                                assert(seg@ =~= "."@);
                            }
                        }
                    }
                }
                pos = i + 1;
            },
            None => {
                proof {
                    crate::text::lemma_index_of_first_none(suffix, '/');
                }
                let seg = sub_vec(&cs, pos, cs.len());
                proof {
                    assert(seg@ =~= suffix);
                }
                if seg.len() > 0 && !(seg.len() == 1 && seg[0] == '.') {
                    proof {
                        assert(seg@ != "."@) by {
                            reveal_strlit(".");
                            if seg@ == "."@ {
                                assert(seg@.len() == 1 && seg@[0] == '.');
                            }
                        }
                    }
                    out.push(from_chars(&seg));
                    proof {
                        assert(out@.map_values(|s: String| s@) =~= done.push(seg@));
                        assert(done + seq![seg@] =~= done.push(seg@));
                        assert(done.push(seg@) + Seq::<Seq<char>>::empty() =~= done.push(
                            seg@,
                        ));
                    }
                } else {
                    proof {
                        assert(!spec_keep_segment(seg@)) by {
                            reveal_strlit(".");
                            if seg@.len() == 1 && seg@[0] == '.' {
                                assert(seg@ =~= "."@);
                            }
                        }
                        assert(done + Seq::<Seq<char>>::empty() =~= done);
                    }
                }
                return out;
            },
        }
    }
}

/// Strips the provider's top-level directory from an entry path and
/// confines the remainder: yields the stripped path, or nothing when
/// the entry has nothing left after stripping or one of its segments
/// walks upward. A path this yields never resolves outside the
/// directory it is joined onto (see [`lemma_confined_resolution`]).
pub fn sanitize_entry_path(path: &str) -> (r: Option<String>)
    ensures
        match r {
            Some(p) => {
                &&& spec_sanitize_entry(path@) == Some(p@)
                &&& spec_entry_safe(p@)
            },
            None => spec_sanitize_entry(path@) is None,
        },
{
    let segs = split_segments(path);
    let ghost seg_views = segs@.map_values(|s: String| s@);
    if segs.len() <= 1 {
        return None;
    }
    let mut k: usize = 1;
    while k < segs.len()
        invariant
            1 <= k <= segs@.len(),
            seg_views == segs@.map_values(|s: String| s@),
            seg_views == spec_segments(path@),
            segs@.len() >= 2,
            forall|j: int| 1 <= j < k ==> seg_views[j] != ".."@,
        decreases segs@.len() - k,
    {
        let sv = to_chars(segs[k].as_str());
        if sv.len() == 2 && sv[0] == '.' && sv[1] == '.' {
            proof {
                assert(seg_views[k as int] =~= ".."@) by {
                    reveal_strlit("..");
                }
            }
            return None;
        }
        proof {
            assert(seg_views[k as int] != ".."@) by {
                reveal_strlit("..");
                if seg_views[k as int] == ".."@ {
                    assert(sv@.len() == 2 && sv@[0] == '.' && sv@[1] == '.');
                }
            }
        }
        k += 1;
    }
    // the first segment may read `..`; it is dropped either way, but
    // such an archive is refused outright
    let sv0 = to_chars(segs[0].as_str());
    if sv0.len() == 2 && sv0[0] == '.' && sv0[1] == '.' {
        proof {
            assert(seg_views[0] =~= ".."@) by {
                reveal_strlit("..");
            }
        }
        return None;
    }
    proof {
        assert(seg_views[0] != ".."@) by {
            reveal_strlit("..");
            if seg_views[0] == ".."@ {
                assert(sv0@.len() == 2 && sv0@[0] == '.' && sv0@[1] == '.');
            }
        }
        assert(forall|j: int| 0 <= j < seg_views.len() ==> seg_views[j] != ".."@);
    }
    let mut out: Vec<char> = Vec::new();
    let mut i: usize = 1;
    let ghost kept = seg_views.drop_first();
    while i < segs.len()
        invariant
            1 <= i <= segs@.len(),
            segs@.len() >= 2,
            seg_views == segs@.map_values(|s: String| s@),
            kept == seg_views.drop_first(),
            out@ == spec_join_segments(kept.take(i - 1)),
        decreases segs@.len() - i,
    {
        let ghost join_prev = out@;
        if i > 1 {
            out.push('/');
            assert(out@ =~= join_prev + "/"@) by {
                reveal_strlit("/");
            }
        }
        let sv = to_chars(segs[i].as_str());
        let ghost before = out@;
        let mut j: usize = 0;
        while j < sv.len()
            invariant
                0 <= j <= sv@.len(),
                out@ == before + sv@.take(j as int),
            decreases sv@.len() - j,
        {
            out.push(sv[j]);
            assert(out@ =~= before + sv@.take(j + 1 as int));
            j += 1;
        }
        proof {
            assert(sv@.take(sv@.len() as int) =~= sv@);
            assert(kept.take(i - 1 + 1) =~= kept.take(i - 1).push(kept[i - 1]));
            lemma_join_snoc(kept.take(i - 1), kept[i - 1]);
            assert(kept[i - 1] == sv@);
        }
        i += 1;
    }
    proof {
        assert(kept.take(kept.len() as int) =~= kept);
        lemma_segments_wf(path@);
        assert(forall|k: int|
            0 <= k < kept.len() ==> spec_keep_segment(#[trigger] kept[k]) && !kept[k].contains(
                '/',
            )) by {
            assert(forall|k: int| 0 <= k < kept.len() ==> kept[k] == seg_views[k + 1]);
        }
        lemma_segments_of_join(kept);
        assert(forall|k: int| 0 <= k < kept.len() ==> kept[k] != ".."@);
    }
    Some(from_chars(&out))
}

/// Joining one more segment appends a separator and the segment,
/// except onto an empty path.
proof fn lemma_join_snoc(segs: Seq<Seq<char>>, seg: Seq<char>)
    ensures
        spec_join_segments(segs.push(seg)) == if segs.len() == 0 {
            seg
        } else {
            spec_join_segments(segs) + "/"@ + seg
        },
    decreases segs.len(),
{
    if segs.len() == 0 {
        assert(segs.push(seg).len() == 1);
        assert(segs.push(seg)[0] == seg);
    } else {
        lemma_join_snoc(segs.drop_first(), seg);
        assert(segs.push(seg)[0] == segs[0]);
        assert(segs.push(seg).drop_first() =~= segs.drop_first().push(seg));
        if segs.len() == 1 {
            assert(segs.push(seg).len() == 2);
            assert(spec_join_segments(segs.push(seg)) == segs[0] + "/"@ + seg);
            assert(spec_join_segments(segs) == segs[0]);
        } else {
            assert(segs[0] + "/"@ + (spec_join_segments(segs.drop_first()) + "/"@ + seg)
                =~= (segs[0] + "/"@ + spec_join_segments(segs.drop_first())) + "/"@ + seg);
        }
    }
}

/// The extraction plan of the decoded entries: each entry's path
/// stripped and confined, entries with nothing safe left dropped.
pub open spec fn spec_extract_plan(raw: Seq<(Seq<char>, Seq<u8>, bool)>) -> Seq<
    (Seq<char>, Seq<u8>, bool),
>
    decreases raw.len(),
{
    if raw.len() == 0 {
        Seq::<(Seq<char>, Seq<u8>, bool)>::empty()
    } else {
        let rest = spec_extract_plan(raw.drop_first());
        match spec_sanitize_entry(raw[0].0) {
            Some(p) => seq![(p, raw[0].1, raw[0].2)] + rest,
            None => rest,
        }
    }
}

/// Plans the extraction of decoded entries: each entry's path is
/// stripped of its top-level directory and confined; entries that
/// would escape the destination, or have nothing left, are dropped.
pub fn plan_extraction(raw: &Vec<(String, Vec<u8>, bool)>) -> (r: Vec<ExtractedEntry>)
    ensures
        r@.map_values(|e: ExtractedEntry| (e.path@, e.data@, e.is_dir)) == spec_extract_plan(
            raw@.map_values(|e: (String, Vec<u8>, bool)| (e.0@, e.1@, e.2)),
        ),
        forall|k: int| 0 <= k < r@.len() ==> spec_entry_safe(#[trigger] r@[k].path@),
{
    let ghost raw_views = raw@.map_values(|e: (String, Vec<u8>, bool)| (e.0@, e.1@, e.2));
    let mut out: Vec<ExtractedEntry> = Vec::new();
    let mut i: usize = 0;
    proof {
        assert(raw_views.skip(0) =~= raw_views);
        assert(out@.map_values(|e: ExtractedEntry| (e.path@, e.data@, e.is_dir)) =~= Seq::<
            (Seq<char>, Seq<u8>, bool),
        >::empty());
        assert(Seq::<(Seq<char>, Seq<u8>, bool)>::empty() + spec_extract_plan(raw_views)
            =~= spec_extract_plan(raw_views));
    }
    while i < raw.len()
        invariant
            0 <= i <= raw@.len(),
            raw_views == raw@.map_values(|e: (String, Vec<u8>, bool)| (e.0@, e.1@, e.2)),
            spec_extract_plan(raw_views) == out@.map_values(
                |e: ExtractedEntry| (e.path@, e.data@, e.is_dir),
            ) + spec_extract_plan(raw_views.skip(i as int)),
            forall|k: int| 0 <= k < out@.len() ==> spec_entry_safe(#[trigger] out@[k].path@),
        decreases raw@.len() - i,
    {
        let ghost done = out@.map_values(|e: ExtractedEntry| (e.path@, e.data@, e.is_dir));
        let ghost suffix = raw_views.skip(i as int);
        proof {
            assert(suffix[0] == raw_views[i as int]);
            assert(suffix.drop_first() =~= raw_views.skip(i + 1 as int));
        }
        let entry = &raw[i];
        match sanitize_entry_path(entry.0.as_str()) {
            Some(p) => {
                let ghost pv = p@;
                out.push(ExtractedEntry { path: p, data: clone_bytes(&entry.1), is_dir: entry.2 });
                proof {
                    assert(out@.map_values(|e: ExtractedEntry| (e.path@, e.data@, e.is_dir))
                        =~= done.push((pv, raw_views[i as int].1, raw_views[i as int].2)));
                    assert(done + (seq![(pv, raw_views[i as int].1, raw_views[i as int].2)]
                        + spec_extract_plan(raw_views.skip(i + 1 as int))) =~= done.push(
                        (pv, raw_views[i as int].1, raw_views[i as int].2),
                    ) + spec_extract_plan(raw_views.skip(i + 1 as int)));
                }
            },
            None => {},
        }
        i += 1;
    }
    proof {
        assert(raw_views.skip(raw_views.len() as int) =~= Seq::<
            (Seq<char>, Seq<u8>, bool),
        >::empty());
        let done = out@.map_values(|e: ExtractedEntry| (e.path@, e.data@, e.is_dir));
        assert(done + spec_extract_plan(raw_views.skip(raw_views.len() as int)) =~= done);
    }
    out
}

/// Decodes the archive and plans its extraction: every entry of the
/// gzip-tar stream has its top-level directory stripped and its path
/// confined; entries that would escape the destination, or have
/// nothing left, are dropped. The caller creates each yielded entry
/// under the destination; none of them can land outside it.
pub fn extract_archive(archive: &Vec<u8>) -> (r: Result<Vec<ExtractedEntry>, Error>)
    ensures
        match r {
            Ok(es) => {
                &&& spec_archive_entries(archive@) matches Some(raw) && es@.map_values(
                    |e: ExtractedEntry| (e.path@, e.data@, e.is_dir),
                ) == spec_extract_plan(raw)
                &&& forall|k: int| 0 <= k < es@.len() ==> spec_entry_safe(#[trigger] es@[k].path@)
            },
            Err(e) => spec_archive_entries(archive@) is None && e.kind == ErrorKind::Transport,
        },
{
    match decode_archive(archive) {
        Ok(raw) => Ok(plan_extraction(&raw)),
        Err(m) => Err(Error::new(ErrorKind::Transport, m)),
    }
}

/// Copies a byte vector.
fn clone_bytes(v: &Vec<u8>) -> (r: Vec<u8>)
    ensures
        r@ == v@,
{
    let mut out: Vec<u8> = Vec::new();
    let mut i: usize = 0;
    while i < v.len()
        invariant
            0 <= i <= v@.len(),
            out@ == v@.take(i as int),
        decreases v@.len() - i,
    {
        out.push(v[i]);
        assert(out@ =~= v@.take(i + 1 as int));
        i += 1;
    }
    assert(v@.take(v@.len() as int) =~= v@);
    out
}

} // verus!
