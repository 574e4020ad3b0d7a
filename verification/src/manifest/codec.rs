//! The manifest's text form: one bracketed section per template name,
//! each field on its own quoted line. Rendering and parsing are exact
//! inverses on every registry whose strings are plain (see
//! [`spec_renderable`]), which is what keeps a saved registry equal to
//! the one loaded back.

use crate::manifest::{
    spec_names_unique, Manifest, Template, TemplateMap, TemplateView,
};
use crate::text::{
    find_from, from_chars, lemma_index_of_first_is, lemma_index_of_first_none, matches_at,
    sub_vec, to_chars,
};
use vstd::prelude::*;

verus! {

/// Whether a field value can stand between quotes: no quote and no
/// line break in it.
pub open spec fn spec_value_ok(v: Seq<char>) -> bool {
    forall|i: int| 0 <= i < v.len() ==> v[i] != '"' && v[i] != '\n'
}

/// Whether a template name can stand between brackets: no closing
/// bracket and no line break in it.
pub open spec fn spec_name_ok(n: Seq<char>) -> bool {
    forall|i: int| 0 <= i < n.len() ==> n[i] != ']' && n[i] != '\n'
}

/// Whether every string of the template is plain enough to render.
pub open spec fn spec_template_ok(t: TemplateView) -> bool {
    &&& spec_value_ok(t.url)
    &&& (t.description matches Some(d) ==> spec_value_ok(d))
    &&& (t.alias matches Some(a) ==> spec_value_ok(a))
}

/// Whether the whole registry renders: every name and every field
/// value is plain.
pub open spec fn spec_renderable(s: Seq<(Seq<char>, TemplateView)>) -> bool {
    forall|i: int|
        0 <= i < s.len() ==> spec_name_ok(#[trigger] s[i].0) && spec_template_ok(s[i].1)
}

/// The text of one section: the bracketed name, the URL line, then the
/// optional description and alias lines.
pub open spec fn spec_render_template(name: Seq<char>, t: TemplateView) -> Seq<char> {
    "["@ + name + "]\n"@ + "url = \""@ + t.url + "\"\n"@ + (match t.description {
        Some(d) => "description = \""@ + d + "\"\n"@,
        None => Seq::<char>::empty(),
    }) + (match t.alias {
        Some(a) => "alias = \""@ + a + "\"\n"@,
        None => Seq::<char>::empty(),
    })
}

/// The text of the whole registry: its sections in order.
pub open spec fn spec_render(s: Seq<(Seq<char>, TemplateView)>) -> Seq<char>
    decreases s.len(),
{
    if s.len() == 0 {
        Seq::<char>::empty()
    } else {
        spec_render_template(s[0].0, s[0].1) + spec_render(s.drop_first())
    }
}

/// Reads one quoted field line: after the literal `prefix` (which ends
/// with the opening quote), the value runs to the next quote, which a
/// line break must follow. Yields the value and what follows the line.
pub open spec fn spec_parse_field(s: Seq<char>, prefix: Seq<char>) -> Option<
    (Seq<char>, Seq<char>),
> {
    if s.len() >= prefix.len() && s.take(prefix.len() as int) == prefix {
        let rest = s.skip(prefix.len() as int);
        match rest.index_of_first('"') {
            Some(q) => if q + 1 < rest.len() && rest[q + 1] == '\n' {
                Some((rest.take(q), rest.skip(q + 2)))
            } else {
                None
            },
            None => None,
        }
    } else {
        None
    }
}

/// Reads one section header: a bracketed name ending the line. Yields
/// the name and what follows the line.
pub open spec fn spec_parse_header(s: Seq<char>) -> Option<(Seq<char>, Seq<char>)> {
    if s.len() > 0 && s[0] == '[' {
        match s.index_of_first(']') {
            Some(c) => if c + 1 < s.len() && s[c + 1] == '\n' {
                Some((s.subrange(1, c), s.skip(c + 2)))
            } else {
                None
            },
            None => None,
        }
    } else {
        None
    }
}

/// Reads one section: the header, the URL line, then the optional
/// description and alias lines.
pub open spec fn spec_parse_section(s: Seq<char>) -> Option<
    (Seq<char>, TemplateView, Seq<char>),
> {
    match spec_parse_header(s) {
        Some((name, r1)) => match spec_parse_field(r1, "url = \""@) {
            Some((url, r2)) => {
                let (description, r3) = match spec_parse_field(r2, "description = \""@) {
                    Some((d, r)) => (Some(d), r),
                    None => (None, r2),
                };
                let (alias, r4) = match spec_parse_field(r3, "alias = \""@) {
                    Some((a, r)) => (Some(a), r),
                    None => (None, r3),
                };
                Some((name, TemplateView { description, alias, url }, r4))
            },
            None => None,
        },
        None => None,
    }
}

/// Reads the whole document: sections until the text ends.
pub open spec fn spec_parse(s: Seq<char>) -> Option<Seq<(Seq<char>, TemplateView)>>
    decreases s.len(),
{
    if s.len() == 0 {
        Some(Seq::<(Seq<char>, TemplateView)>::empty())
    } else {
        match spec_parse_section(s) {
            Some((name, t, rest)) => if rest.len() < s.len() {
                match spec_parse(rest) {
                    Some(es) => Some(seq![(name, t)] + es),
                    None => None,
                }
            } else {
                None
            },
            None => None,
        }
    }
}

/// A rendered field line reads back as itself: for a plain value, the
/// line followed by anything parses to the value and that remainder.
proof fn lemma_parse_field_round(prefix: Seq<char>, v: Seq<char>, tail: Seq<char>)
    requires
        spec_value_ok(v),
        forall|i: int| 0 <= i < prefix.len() ==> prefix[i] != '"' || i == prefix.len() - 1,
        prefix.len() > 0,
        prefix[prefix.len() - 1] == '"',
    ensures
        spec_parse_field(prefix + v + "\"\n"@ + tail, prefix) == Some((v, tail)),
{
    reveal_strlit("\"\n");
    let s = prefix + v + "\"\n"@ + tail;
    assert(s.take(prefix.len() as int) =~= prefix);
    let rest = s.skip(prefix.len() as int);
    assert(rest =~= v + "\"\n"@ + tail);
    assert(rest[v.len() as int] == '"');
    assert(forall|j: int| 0 <= j < v.len() ==> rest[j] == v[j]);
    lemma_index_of_first_is(rest, '"', v.len() as int);
    assert(rest[v.len() as int + 1] == '\n');
    assert(rest.take(v.len() as int) =~= v);
    assert(rest.skip(v.len() as int + 2) =~= tail);
}

/// A field line with one prefix never parses under another: when the
/// text starts with a different first character than the prefix, the
/// parse yields nothing.
proof fn lemma_parse_field_mismatch(s: Seq<char>, prefix: Seq<char>)
    requires
        prefix.len() > 0,
        s.len() == 0 || s[0] != prefix[0],
    ensures
        spec_parse_field(s, prefix) is None,
{
    if s.len() >= prefix.len() {
        assert(s.take(prefix.len() as int)[0] == s[0]);
    }
}

/// A rendered section reads back as itself: for a plain name and
/// template, the section followed by nothing or by another section
/// parses to exactly that name, that template and that remainder.
#[verifier::rlimit(100)]
proof fn lemma_parse_section_round(name: Seq<char>, t: TemplateView, tail: Seq<char>)
    requires
        spec_name_ok(name),
        spec_template_ok(t),
        tail.len() == 0 || tail[0] == '[',
    ensures
        spec_parse_section(spec_render_template(name, t) + tail) == Some((name, t, tail)),
{
    reveal_strlit("[");
    reveal_strlit("]\n");
    reveal_strlit("url = \"");
    reveal_strlit("description = \"");
    reveal_strlit("alias = \"");
    reveal_strlit("\"\n");
    let desc_part = match t.description {
        Some(d) => "description = \""@ + d + "\"\n"@,
        None => Seq::<char>::empty(),
    };
    let alias_part = match t.alias {
        Some(a) => "alias = \""@ + a + "\"\n"@,
        None => Seq::<char>::empty(),
    };
    let s = spec_render_template(name, t) + tail;
    let body = "url = \""@ + t.url + "\"\n"@ + desc_part + alias_part + tail;
    assert(s =~= "["@ + name + "]\n"@ + body);

    // the header: the first `]` closes the name
    assert(s[0] == '[');
    assert(s[1 + name.len() as int] == ']');
    assert(forall|j: int| 1 <= j < 1 + name.len() ==> s[j] == name[j - 1]);
    assert(forall|j: int| 0 <= j < 1 + name.len() ==> s[j] != ']');
    lemma_index_of_first_is(s, ']', 1 + name.len() as int);
    assert(s[name.len() + 2int] == '\n');
    assert(s.subrange(1, 1 + name.len() as int) =~= name);
    assert(s.skip(name.len() + 3int) =~= body);

    // the URL line
    let url_prefix = "url = \""@;
    assert(forall|i: int|
        0 <= i < url_prefix.len() ==> url_prefix[i] != '"' || i == url_prefix.len() - 1);
    assert(body =~= url_prefix + t.url + "\"\n"@ + (desc_part + alias_part + tail));
    lemma_parse_field_round(url_prefix, t.url, desc_part + alias_part + tail);
    let r2 = desc_part + alias_part + tail;

    // the description line, when there is one
    let desc_prefix = "description = \""@;
    let alias_prefix = "alias = \""@;
    let r3 = alias_part + tail;
    match t.description {
        Some(d) => {
            assert(forall|i: int|
                0 <= i < desc_prefix.len() ==> desc_prefix[i] != '"' || i == desc_prefix.len()
                    - 1);
            assert(r2 =~= desc_prefix + d + "\"\n"@ + r3);
            lemma_parse_field_round(desc_prefix, d, r3);
        },
        None => {
            assert(r2 =~= r3);
            if r3.len() == 0 {
                lemma_parse_field_mismatch(r2, desc_prefix);
            } else {
                match t.alias {
                    Some(a) => {
                        assert(r2[0] == alias_prefix[0]);
                        lemma_parse_field_mismatch(r2, desc_prefix);
                    },
                    None => {
                        assert(r2 =~= tail);
                        lemma_parse_field_mismatch(r2, desc_prefix);
                    },
                }
            }
        },
    }

    // the alias line, when there is one
    match t.alias {
        Some(a) => {
            assert(forall|i: int|
                0 <= i < alias_prefix.len() ==> alias_prefix[i] != '"' || i == alias_prefix.len()
                    - 1);
            assert(r3 =~= alias_prefix + a + "\"\n"@ + tail);
            lemma_parse_field_round(alias_prefix, a, tail);
        },
        None => {
            assert(r3 =~= tail);
            lemma_parse_field_mismatch(r3, alias_prefix);
        },
    }
}

/// Rendering then parsing gives the registry back: for every sequence
/// of entries with pairwise distinct names and plain strings, parsing
/// the rendered text yields exactly those entries. This is the
/// round-trip behind saving and loading the registry.
pub proof fn lemma_render_parse_round_trip(s: Seq<(Seq<char>, TemplateView)>)
    requires
        spec_renderable(s),
    ensures
        spec_parse(spec_render(s)) == Some(s),
    decreases s.len(),
{
    reveal_strlit("[");
    if s.len() == 0 {
        assert(spec_render(s).len() == 0);
    } else {
        let tail = spec_render(s.drop_first());
        assert(spec_renderable(s.drop_first())) by {
            assert(forall|i: int|
                0 <= i < s.drop_first().len() ==> s.drop_first()[i] == s[i + 1]);
        }
        if s.drop_first().len() == 0 {
            assert(tail.len() == 0);
        } else {
            let e1 = s.drop_first()[0];
            assert(spec_render_template(e1.0, e1.1)[0] == '[');
            assert(tail[0] == '[');
        }
        lemma_parse_section_round(s[0].0, s[0].1, tail);
        let whole = spec_render(s);
        assert(whole =~= spec_render_template(s[0].0, s[0].1) + tail);
        assert(spec_render_template(s[0].0, s[0].1).len() > 0) by {
            reveal_strlit("]\n");
            reveal_strlit("url = \"");
            reveal_strlit("\"\n");
        }
        lemma_render_parse_round_trip(s.drop_first());
        assert(seq![(s[0].0, s[0].1)] + s.drop_first() =~= s);
    }
}

/// Rendering one more entry appends one more section.
proof fn lemma_render_snoc(s: Seq<(Seq<char>, TemplateView)>, e: (Seq<char>, TemplateView))
    ensures
        spec_render(s.push(e)) == spec_render(s) + spec_render_template(e.0, e.1),
    decreases s.len(),
{
    if s.len() == 0 {
        assert(s.push(e)[0] == e);
        assert(s.push(e).drop_first() =~= s);
        assert(spec_render_template(e.0, e.1) + spec_render(s) =~= spec_render_template(
            e.0,
            e.1,
        ));
        assert(spec_render(s) + spec_render_template(e.0, e.1) =~= spec_render_template(
            e.0,
            e.1,
        ));
    } else {
        lemma_render_snoc(s.drop_first(), e);
        assert(s.push(e)[0] == s[0]);
        assert(s.push(e).drop_first() =~= s.drop_first().push(e));
        assert(spec_render_template(s[0].0, s[0].1) + (spec_render(s.drop_first())
            + spec_render_template(e.0, e.1)) =~= (spec_render_template(s[0].0, s[0].1)
            + spec_render(s.drop_first())) + spec_render_template(e.0, e.1));
    }
}

/// Appends the characters of `s` to `out`.
fn append_chars(out: &mut Vec<char>, s: &Vec<char>)
    ensures
        final(out)@ == old(out)@ + s@,
{
    let mut i: usize = 0;
    while i < s.len()
        invariant
            0 <= i <= s@.len(),
            out@ == old(out)@ + s@.take(i as int),
        decreases s@.len() - i,
    {
        out.push(s[i]);
        assert(old(out)@ + s@.take(i + 1 as int) =~= (old(out)@ + s@.take(i as int)).push(
            s@[i as int],
        ));
        i += 1;
    }
    assert(s@.take(s@.len() as int) =~= s@);
}

/// Appends the characters of the literal to `out`.
fn push_lit(out: &mut Vec<char>, lit: &str)
    ensures
        final(out)@ == old(out)@ + lit@,
{
    let l = to_chars(lit);
    append_chars(out, &l);
}

/// Whether every character may stand in a quoted value.
fn value_ok(v: &Vec<char>) -> (r: bool)
    ensures
        r == spec_value_ok(v@),
{
    let mut i: usize = 0;
    while i < v.len()
        invariant
            0 <= i <= v@.len(),
            forall|j: int| 0 <= j < i ==> v@[j] != '"' && v@[j] != '\n',
        decreases v@.len() - i,
    {
        if v[i] == '"' || v[i] == '\n' {
            return false;
        }
        i += 1;
    }
    true
}

/// Whether every character may stand in a bracketed name.
fn name_ok(n: &Vec<char>) -> (r: bool)
    ensures
        r == spec_name_ok(n@),
{
    let mut i: usize = 0;
    while i < n.len()
        invariant
            0 <= i <= n@.len(),
            forall|j: int| 0 <= j < i ==> n@[j] != ']' && n@[j] != '\n',
        decreases n@.len() - i,
    {
        if n[i] == ']' || n[i] == '\n' {
            return false;
        }
        i += 1;
    }
    true
}

/// Renders the registry as text, one section per template. Yields the
/// text exactly when every name and field value is plain; a registry
/// holding a quote, bracket or line break that the format cannot carry
/// is refused.
pub fn render_manifest(m: &Manifest) -> (r: Option<String>)
    requires
        m.templates.wf(),
    ensures
        match r {
            Some(s) => spec_renderable(m.templates@) && s@ == spec_render(m.templates@),
            None => !spec_renderable(m.templates@),
        },
{
    let mut out: Vec<char> = Vec::new();
    let n = m.templates.len();
    let mut i: usize = 0;
    while i < n
        invariant
            m.templates.wf(),
            n == m.templates@.len(),
            0 <= i <= n,
            out@ == spec_render(m.templates@.take(i as int)),
            forall|k: int|
                0 <= k < i ==> spec_name_ok(#[trigger] m.templates@[k].0) && spec_template_ok(
                    m.templates@[k].1,
                ),
        decreases n - i,
    {
        let ghost entry = m.templates@[i as int];
        let e = m.templates.entry_at(i);
        let name_c = to_chars(e.0.as_str());
        if !name_ok(&name_c) {
            proof {
                assert(!spec_name_ok(m.templates@[i as int].0));
            }
            return None;
        }
        push_lit(&mut out, "[");
        append_chars(&mut out, &name_c);
        push_lit(&mut out, "]
");
        push_lit(&mut out, "url = \"");
        let url_c = to_chars(e.1.url.as_str());
        if !value_ok(&url_c) {
            return None;
        }
        append_chars(&mut out, &url_c);
        push_lit(&mut out, "\"\n");
        match &e.1.description {
            Some(d) => {
                let d_c = to_chars(d.as_str());
                if !value_ok(&d_c) {
                    return None;
                }
                push_lit(&mut out, "description = \"");
                append_chars(&mut out, &d_c);
                push_lit(&mut out, "\"\n");
            },
            None => {},
        }
        match &e.1.alias {
            Some(a) => {
                let a_c = to_chars(a.as_str());
                if !value_ok(&a_c) {
                    return None;
                }
                push_lit(&mut out, "alias = \"");
                append_chars(&mut out, &a_c);
                push_lit(&mut out, "\"\n");
            },
            None => {},
        }
        proof {
            assert(out@ =~= spec_render(m.templates@.take(i as int)) + spec_render_template(
                entry.0,
                entry.1,
            ));
            lemma_render_snoc(m.templates@.take(i as int), entry);
            assert(m.templates@.take(i + 1 as int) =~= m.templates@.take(i as int).push(entry));
        }
        i += 1;
    }
    proof {
        assert(m.templates@.take(n as int) =~= m.templates@);
    }
    Some(from_chars(&out))
}

/// Reads one quoted field line standing at `pos`.
fn parse_field_at(cs: &Vec<char>, pos: usize, prefix: &str) -> (r: Option<(String, usize)>)
    requires
        pos <= cs@.len(),
    ensures
        match r {
            Some(p) => {
                &&& spec_parse_field(cs@.skip(pos as int), prefix@) == Some(
                    (p.0@, cs@.skip(p.1 as int)),
                )
                &&& pos < p.1 <= cs.len()
            },
            None => spec_parse_field(cs@.skip(pos as int), prefix@) is None,
        },
{
    let ghost s = cs@.skip(pos as int);
    let pc = to_chars(prefix);
    let plen = pc.len();
    if !matches_at(cs, pos, prefix) {
        proof {
            if s.len() >= prefix@.len() {
                assert(s.take(prefix@.len() as int) =~= cs@.subrange(
                    pos as int,
                    pos + prefix@.len(),
                ));
            }
        }
        return None;
    }
    proof {
        assert(pos + plen <= cs.len());
    }
    let vstart: usize = pos + plen;
    let ghost rest = s.skip(prefix@.len() as int);
    proof {
        assert(s.take(prefix@.len() as int) =~= cs@.subrange(pos as int, pos + prefix@.len()));
        assert(rest =~= cs@.skip(vstart as int));
    }
    match find_from(cs, vstart, '"') {
        Some(q) => {
            proof {
                lemma_index_of_first_is(rest, '"', q - vstart);
            }
            if q + 1 < cs.len() {
                if cs[q + 1] == '\n' {
                    let v = sub_vec(cs, vstart, q);
                    let np: usize = q + 2;
                    proof {
                        assert(v@ =~= rest.take(q - vstart));
                        assert(cs@.skip(np as int) =~= rest.skip(q - vstart + 2));
                    }
                    Some((from_chars(&v), np))
                } else {
                    None
                }
            } else {
                None
            }
        },
        None => {
            proof {
                lemma_index_of_first_none(rest, '"');
            }
            None
        },
    }
}

/// Reads one section standing at `pos`.
fn parse_section_at(cs: &Vec<char>, pos: usize) -> (r: Option<(String, Template, usize)>)
    requires
        pos <= cs@.len(),
    ensures
        match r {
            Some(p) => {
                &&& spec_parse_section(cs@.skip(pos as int)) == Some(
                    (p.0@, p.1@, cs@.skip(p.2 as int)),
                )
                &&& pos < p.2 <= cs.len()
            },
            None => spec_parse_section(cs@.skip(pos as int)) is None,
        },
{
    let ghost s = cs@.skip(pos as int);
    if pos >= cs.len() {
        return None;
    }
    if cs[pos] != '[' {
        return None;
    }
    let c = match find_from(cs, pos, ']') {
        Some(c) => {
            proof {
                lemma_index_of_first_is(s, ']', c - pos);
            }
            c
        },
        None => {
            proof {
                lemma_index_of_first_none(s, ']');
            }
            return None;
        },
    };
    if c + 1 >= cs.len() {
        return None;
    }
    if cs[c + 1] != '\n' {
        return None;
    }
    let name_c = sub_vec(cs, pos + 1, c);
    proof {
        assert(name_c@ =~= s.subrange(1, c - pos));
    }
    let name = from_chars(&name_c);
    let r1pos: usize = c + 2;
    proof {
        assert(cs@.skip(r1pos as int) =~= s.skip(c - pos + 2));
    }
    let (url, r2pos) = match parse_field_at(cs, r1pos, "url = \"") {
        Some(p) => p,
        None => {
            return None;
        },
    };
    let (description, r3pos) = match parse_field_at(cs, r2pos, "description = \"") {
        Some(p) => (Some(p.0), p.1),
        None => (None, r2pos),
    };
    let (alias, r4pos) = match parse_field_at(cs, r3pos, "alias = \"") {
        Some(p) => (Some(p.0), p.1),
        None => (None, r3pos),
    };
    Some((name, Template { description, alias, url }, r4pos))
}

/// Parses the text of a registry. Yields the registry exactly when the
/// text is a well-formed sequence of sections whose names are pairwise
/// distinct; a malformed document, and one naming a template twice, is
/// refused.
pub fn parse_manifest(input: &str) -> (r: Option<Manifest>)
    ensures
        match r {
            Some(m) => {
                &&& m.templates.wf()
                &&& spec_parse(input@) == Some(m.templates@)
            },
            None => spec_parse(input@) matches Some(es) ==> !spec_names_unique(es),
        },
{
    let cs = to_chars(input);
    let mut map = TemplateMap::new();
    let mut pos: usize = 0;
    proof {
        assert(cs@.skip(0) =~= input@);
        if spec_parse(input@) is Some {
            let es0 = spec_parse(input@).unwrap();
            assert(map@ + es0 =~= es0);
        }
    }
    while pos < cs.len()
        invariant
            map.wf(),
            pos <= cs.len(),
            cs@ == input@,
            spec_parse(input@) == (match spec_parse(cs@.skip(pos as int)) {
                Some(es) => Some(map@ + es),
                None => None::<Seq<(Seq<char>, TemplateView)>>,
            }),
        decreases cs@.len() - pos,
    {
        let ghost old_map = map@;
        match parse_section_at(&cs, pos) {
            Some((n, t, np)) => {
                if map.get(n.as_str()).is_some() {
                    proof {
                        if spec_parse(input@) is Some {
                            let es = spec_parse(input@).unwrap();
                            let tail = spec_parse(cs@.skip(pos as int)).unwrap();
                            let i = crate::manifest::spec_name_index(map@, n@);
                            assert(map@[i].0 == n@);
                            assert(es[i].0 == n@);
                            assert(es[map@.len() as int].0 == n@);
                            assert(!spec_names_unique(es));
                        }
                    }
                    return None;
                }
                let ghost nview = n@;
                let ghost tview = t@;
                map.insert(n, t);
                proof {
                    assert(map@ =~= old_map.push((nview, tview)));
                    if spec_parse(cs@.skip(np as int)) is Some {
                        let es2 = spec_parse(cs@.skip(np as int)).unwrap();
                        let one = seq![(nview, tview)];
                        assert(old_map + (one + es2) =~= map@ + es2);
                    }
                }
                pos = np;
            },
            None => {
                return None;
            },
        }
    }
    proof {
        assert(cs@.skip(pos as int) =~= Seq::<char>::empty());
        assert(map@ + Seq::<(Seq<char>, TemplateView)>::empty() =~= map@);
    }
    Some(Manifest { templates: map })
}

} // verus!
