//! The template registry: a named collection of templates with
//! alias-aware lookup, and the file wrapper around it.

pub mod codec;

use crate::file::path::{spec_has_traversal, spec_is_absolute};
use crate::text::str_eq;
use crate::{Error, ErrorKind};
use vstd::prelude::*;
use vstd::string::StringExecFns;

verus! {

/// A registered template: its source URL with an optional description
/// and an optional short alias.
#[derive(Debug, Clone, PartialEq)]
pub struct Template {
    pub description: Option<String>,
    pub alias: Option<String>,
    pub url: String,
}

/// The mathematical shape of a template: its three fields as character
/// sequences.
pub struct TemplateView {
    pub description: Option<Seq<char>>,
    pub alias: Option<Seq<char>>,
    pub url: Seq<char>,
}

impl View for Template {
    type V = TemplateView;

    open spec fn view(&self) -> TemplateView {
        TemplateView {
            description: match self.description {
                Some(d) => Some(d@),
                None => None,
            },
            alias: match self.alias {
                Some(a) => Some(a@),
                None => None,
            },
            url: self.url@,
        }
    }
}

/// Whether the named entries carry pairwise distinct names.
pub open spec fn spec_names_unique(s: Seq<(Seq<char>, TemplateView)>) -> bool {
    forall|i: int, j: int| 0 <= i < j < s.len() ==> s[i].0 != s[j].0
}

/// Whether an entry with the given name stands in `s`.
pub open spec fn spec_has_name(s: Seq<(Seq<char>, TemplateView)>, name: Seq<char>) -> bool {
    exists|i: int| 0 <= i < s.len() && s[i].0 == name
}

/// The index of the entry with the given name.
pub open spec fn spec_name_index(s: Seq<(Seq<char>, TemplateView)>, name: Seq<char>) -> int {
    choose|i: int| 0 <= i < s.len() && s[i].0 == name
}

/// The index of the first entry whose alias is the given name.
pub open spec fn spec_first_alias_index(
    s: Seq<(Seq<char>, TemplateView)>,
    name: Seq<char>,
) -> Option<int>
    decreases s.len(),
{
    if s.len() == 0 {
        None
    } else if s[0].1.alias == Some(name) {
        Some(0int)
    } else {
        match spec_first_alias_index(s.drop_first(), name) {
            Some(i) => Some(i + 1),
            None => None,
        }
    }
}

/// What the first-alias index means: the entry there carries the alias
/// and no earlier entry does; `None` means no entry carries it.
pub proof fn lemma_first_alias_index(s: Seq<(Seq<char>, TemplateView)>, name: Seq<char>)
    ensures
        match spec_first_alias_index(s, name) {
            Some(i) => 0 <= i < s.len() && s[i].1.alias == Some(name) && (forall|j: int|
                0 <= j < i ==> s[j].1.alias != Some(name)),
            None => forall|j: int| 0 <= j < s.len() ==> s[j].1.alias != Some(name),
        },
    decreases s.len(),
{
    if s.len() > 0 {
        lemma_first_alias_index(s.drop_first(), name);
        assert(forall|j: int| 1 <= j < s.len() ==> s[j] == s.drop_first()[j - 1]);
    }
}

/// Where a lookup of `name` lands: the entry of that exact name first,
/// else the first entry aliased to it, else nowhere.
pub open spec fn spec_resolve_index(
    s: Seq<(Seq<char>, TemplateView)>,
    name: Seq<char>,
) -> Option<int> {
    if spec_has_name(s, name) {
        Some(spec_name_index(s, name))
    } else {
        spec_first_alias_index(s, name)
    }
}

/// The named templates, in insertion order, with pairwise distinct
/// names. Replaces an ordered map; lookups scan the entries in order.
pub struct TemplateMap {
    entries: Vec<(String, Template)>,
}

impl View for TemplateMap {
    type V = Seq<(Seq<char>, TemplateView)>;

    closed spec fn view(&self) -> Seq<(Seq<char>, TemplateView)> {
        self.entries@.map_values(|e: (String, Template)| (e.0@, e.1@))
    }
}

impl TemplateMap {
    /// Names are pairwise distinct; every method keeps this.
    pub open spec fn wf(&self) -> bool {
        spec_names_unique(self@)
    }

    /// An empty registry.
    pub fn new() -> (r: TemplateMap)
        ensures
            r@ =~= Seq::<(Seq<char>, TemplateView)>::empty(),
            r.wf(),
    {
        TemplateMap { entries: Vec::new() }
    }

    /// How many templates are registered.
    pub fn len(&self) -> (r: usize)
        ensures
            r == self@.len(),
    {
        self.entries.len()
    }

    /// Whether no template is registered.
    pub fn is_empty(&self) -> (r: bool)
        ensures
            r == (self@.len() == 0),
    {
        self.entries.len() == 0
    }

    /// The position of the entry named `name`, scanning in order.
    fn position_of(&self, name: &str) -> (r: Option<usize>)
        ensures
            match r {
                Some(i) => i < self@.len() && self@[i as int].0 == name@,
                None => !spec_has_name(self@, name@),
            },
    {
        let mut i: usize = 0;
        while i < self.entries.len()
            invariant
                0 <= i <= self@.len(),
                self@.len() == self.entries@.len(),
                forall|j: int| 0 <= j < i ==> self@[j].0 != name@,
            decreases self@.len() - i,
        {
            if str_eq(self.entries[i].0.as_str(), name) {
                return Some(i);
            }
            i += 1;
        }
        None
    }

    /// The template registered under exactly `name`.
    pub fn get(&self, name: &str) -> (r: Option<&Template>)
        requires
            self.wf(),
        ensures
            match r {
                Some(t) => spec_has_name(self@, name@) && t@ == self@[spec_name_index(
                    self@,
                    name@,
                )].1,
                None => !spec_has_name(self@, name@),
            },
    {
        match self.position_of(name) {
            Some(i) => {
                proof {
                    let k = spec_name_index(self@, name@);
                    assert(self@[k].0 == name@);
                }
                Some(&self.entries[i].1)
            },
            None => None,
        }
    }

    /// Registers `template` under `name`, replacing in place what the
    /// name held before, else appending at the end.
    pub fn insert(&mut self, name: String, template: Template)
        requires
            old(self).wf(),
        ensures
            final(self).wf(),
            final(self)@ =~= if spec_has_name(old(self)@, name@) {
                old(self)@.update(spec_name_index(old(self)@, name@), (name@, template@))
            } else {
                old(self)@.push((name@, template@))
            },
    {
        let ghost old_v = self@;
        match self.position_of(name.as_str()) {
            Some(i) => {
                proof {
                    let k = spec_name_index(old_v, name@);
                    assert(old_v[k].0 == name@);
                    assert(k == i as int);
                }
                self.entries.remove(i);
                self.entries.insert(i, (name, template));
                proof {
                    assert(self@ =~= old_v.update(i as int, (name@, template@)));
                    assert forall|a: int, b: int| 0 <= a < b < self@.len() implies self@[a].0
                        != self@[b].0 by {
                        assert(self@[a].0 == old_v[a].0);
                        assert(self@[b].0 == old_v[b].0);
                    }
                }
            },
            None => {
                self.entries.push((name, template));
                proof {
                    assert(self@ =~= old_v.push((name@, template@)));
                    assert forall|a: int, b: int| 0 <= a < b < self@.len() implies self@[a].0
                        != self@[b].0 by {
                        if b == old_v.len() {
                            assert(old_v[a].0 != name@);
                        }
                    }
                }
            },
        }
    }

    /// Removes and returns what `name` exactly names, if anything.
    pub fn remove(&mut self, name: &str) -> (r: Option<Template>)
        requires
            old(self).wf(),
        ensures
            final(self).wf(),
            match r {
                Some(t) => {
                    &&& spec_has_name(old(self)@, name@)
                    &&& t@ == old(self)@[spec_name_index(old(self)@, name@)].1
                    &&& final(self)@ =~= old(self)@.remove(spec_name_index(old(self)@, name@))
                },
                None => {
                    &&& !spec_has_name(old(self)@, name@)
                    &&& final(self)@ =~= old(self)@
                },
            },
    {
        let ghost old_v = self@;
        match self.position_of(name) {
            Some(i) => {
                proof {
                    let k = spec_name_index(old_v, name@);
                    assert(old_v[k].0 == name@);
                    assert(k == i as int);
                }
                let (_, t) = self.entries.remove(i);
                proof {
                    assert(self@ =~= old_v.remove(i as int));
                    lemma_unique_remove(old_v, i as int);
                }
                Some(t)
            },
            None => None,
        }
    }

    /// Removes and returns the entry standing at `i`.
    pub fn remove_at(&mut self, i: usize) -> (r: (String, Template))
        requires
            old(self).wf(),
            i < old(self)@.len(),
        ensures
            final(self).wf(),
            (r.0@, r.1@) == old(self)@[i as int],
            final(self)@ =~= old(self)@.remove(i as int),
    {
        let ghost old_v = self@;
        let r = self.entries.remove(i);
        proof {
            assert(self@ =~= old_v.remove(i as int));
            lemma_unique_remove(old_v, i as int);
        }
        r
    }

    /// The name standing at `i`.
    pub fn name_at(&self, i: usize) -> (r: &String)
        requires
            i < self@.len(),
        ensures
            r@ == self@[i as int].0,
    {
        proof {
            assert(self@.len() == self.entries@.len());
        }
        &self.entries[i].0
    }

    /// The entry standing at `i`, for walking the registry in order.
    pub fn entry_at(&self, i: usize) -> (r: &(String, Template))
        requires
            i < self@.len(),
        ensures
            (r.0@, r.1@) == self@[i as int],
    {
        &self.entries[i]
    }

    /// Forgets every template.
    pub fn clear(&mut self)
        ensures
            final(self)@ =~= Seq::<(Seq<char>, TemplateView)>::empty(),
            final(self).wf(),
    {
        self.entries = Vec::new();
    }

    /// The position of the first entry whose alias reads `name`.
    fn alias_position_of(&self, name: &str) -> (r: Option<usize>)
        ensures
            match r {
                Some(i) => spec_first_alias_index(self@, name@) == Some(i as int),
                None => spec_first_alias_index(self@, name@) is None,
            },
    {
        proof {
            lemma_first_alias_index(self@, name@);
        }
        let mut i: usize = 0;
        while i < self.entries.len()
            invariant
                0 <= i <= self@.len(),
                self@.len() == self.entries@.len(),
                forall|j: int| 0 <= j < i ==> self@[j].1.alias != Some(name@),
            decreases self@.len() - i,
        {
            let hit = match &self.entries[i].1.alias {
                Some(a) => str_eq(a.as_str(), name),
                None => false,
            };
            if hit {
                proof {
                    lemma_first_alias_pinned(self@, name@, i as int);
                }
                return Some(i);
            }
            i += 1;
        }
        None
    }
}

/// Removing an entry keeps the remaining names pairwise distinct.
proof fn lemma_unique_remove(s: Seq<(Seq<char>, TemplateView)>, i: int)
    requires
        spec_names_unique(s),
        0 <= i < s.len(),
    ensures
        spec_names_unique(s.remove(i)),
{
    let t = s.remove(i);
    assert forall|a: int, b: int| 0 <= a < b < t.len() implies t[a].0 != t[b].0 by {
        let a2 = if a < i { a } else { a + 1 };
        let b2 = if b < i { b } else { b + 1 };
        assert(t[a] == s[a2]);
        assert(t[b] == s[b2]);
    }
}

/// Pins the first-alias index down from a witness.
proof fn lemma_first_alias_pinned(s: Seq<(Seq<char>, TemplateView)>, name: Seq<char>, i: int)
    requires
        0 <= i < s.len(),
        s[i].1.alias == Some(name),
        forall|j: int| 0 <= j < i ==> s[j].1.alias != Some(name),
    ensures
        spec_first_alias_index(s, name) == Some(i),
{
    lemma_first_alias_index(s, name);
}

/// The registry of named templates.
#[derive(Default)]
pub struct Manifest {
    pub templates: TemplateMap,
}

impl Default for TemplateMap {
    /// An empty registry.
    fn default() -> (r: TemplateMap)
        ensures
            r@ =~= Seq::<(Seq<char>, TemplateView)>::empty(),
            r.wf(),
    {
        TemplateMap::new()
    }
}

impl Manifest {
    /// Registers `template` under `name`, overwriting what the name
    /// held before.
    pub fn add_template(&mut self, name: String, template: Template)
        requires
            old(self).templates.wf(),
        ensures
            final(self).templates.wf(),
            final(self).templates@ =~= if spec_has_name(old(self).templates@, name@) {
                old(self).templates@.update(
                    spec_name_index(old(self).templates@, name@),
                    (name@, template@),
                )
            } else {
                old(self).templates@.push((name@, template@))
            },
    {
        self.templates.insert(name, template);
    }

    /// Removes the template that `name` names or, failing that, the
    /// first one aliased to it; answers what was removed.
    pub fn remove_template(&mut self, name: &String) -> (r: Option<Template>)
        requires
            old(self).templates.wf(),
        ensures
            final(self).templates.wf(),
            match spec_resolve_index(old(self).templates@, name@) {
                Some(i) => {
                    &&& r matches Some(t) && t@ == old(self).templates@[i].1
                    &&& final(self).templates@ =~= old(self).templates@.remove(i)
                },
                None => {
                    &&& r is None
                    &&& final(self).templates@ =~= old(self).templates@
                },
            },
    {
        match self.templates.remove(name.as_str()) {
            Some(t) => Some(t),
            None => {
                match self.templates.alias_position_of(name.as_str()) {
                    Some(i) => {
                        proof {
                            lemma_first_alias_index(self.templates@, name@);
                        }
                        let (_, t) = self.templates.remove_at(i);
                        Some(t)
                    },
                    None => None,
                }
            },
        }
    }

    /// The canonical name that `name` resolves to: itself on an exact
    /// match, else the name of the first template aliased to it.
    pub fn find(&self, name: &String) -> (r: Option<&String>)
        requires
            self.templates.wf(),
        ensures
            match spec_resolve_index(self.templates@, name@) {
                Some(i) => r matches Some(k) && k@ == self.templates@[i].0,
                None => r is None,
            },
    {
        match self.templates.position_of(name.as_str()) {
            Some(i) => {
                proof {
                    let k = spec_name_index(self.templates@, name@);
                    assert(self.templates@[k].0 == name@);
                    assert(k == i as int);
                }
                Some(self.templates.name_at(i))
            },
            None => {
                match self.templates.alias_position_of(name.as_str()) {
                    Some(i) => {
                        proof {
                            lemma_first_alias_index(self.templates@, name@);
                        }
                        Some(self.templates.name_at(i))
                    },
                    None => None,
                }
            },
        }
    }

    /// Forgets every template.
    pub fn clear(&mut self)
        ensures
            final(self).templates@ =~= Seq::<(Seq<char>, TemplateView)>::empty(),
            final(self).templates.wf(),
    {
        self.templates.clear();
    }
}

/// Whether a template name may become a directory name under the
/// template store: not an absolute path and free of parent-directory
/// components.
pub open spec fn spec_template_name_ok(name: Seq<char>) -> bool {
    !spec_is_absolute(name) && !spec_has_traversal(name)
}

/// Admits a template name to the registry: names become directory
/// names under the template store, so an absolute path, or one with a
/// parent-directory component, is rejected before anything is stored
/// or cloned.
pub fn validate_template_name(name: &str) -> (r: Result<(), Error>)
    ensures
        r is Ok <==> spec_template_name_ok(name@),
        r matches Err(e) ==> e.kind == ErrorKind::Input,
{
    let cs = crate::text::to_chars(name);
    if cs.len() > 0 && cs[0] == '/' {
        return Err(Error::new(ErrorKind::Input, String::from_str(
            "a template name cannot be an absolute path",
        )));
    }
    if crate::file::path::has_traversal_path(name) {
        return Err(Error::new(ErrorKind::Input, String::from_str(
            "a template name cannot contain a parent-directory component",
        )));
    }
    Ok(())
}

/// The registry together with the path of the file that backs it.
/// Reading and writing that file is the caller's business; the codec
/// turns the registry into text and back.
pub struct ManifestFile {
    pub path: String,
    pub content: Manifest,
}

impl ManifestFile {
    /// A registry freshly tied to its backing path.
    pub fn new(path: String, content: Manifest) -> (r: ManifestFile)
        ensures
            r.path@ == path@,
            r.content == content,
    {
        ManifestFile { path, content }
    }

    /// Registers `template` under `name`, overwriting what the name
    /// held before.
    pub fn add_template(&mut self, name: String, template: Template)
        requires
            old(self).content.templates.wf(),
        ensures
            final(self).content.templates.wf(),
            final(self).path == old(self).path,
            final(self).content.templates@ =~= if spec_has_name(
                old(self).content.templates@,
                name@,
            ) {
                old(self).content.templates@.update(
                    spec_name_index(old(self).content.templates@, name@),
                    (name@, template@),
                )
            } else {
                old(self).content.templates@.push((name@, template@))
            },
    {
        self.content.add_template(name, template);
    }

    /// Removes the template that `name` names or, failing that, the
    /// first one aliased to it; answers what was removed.
    pub fn remove_template(&mut self, name: &String) -> (r: Option<Template>)
        requires
            old(self).content.templates.wf(),
        ensures
            final(self).content.templates.wf(),
            final(self).path == old(self).path,
            match spec_resolve_index(old(self).content.templates@, name@) {
                Some(i) => {
                    &&& r matches Some(t) && t@ == old(self).content.templates@[i].1
                    &&& final(self).content.templates@ =~= old(self).content.templates@.remove(i)
                },
                None => {
                    &&& r is None
                    &&& final(self).content.templates@ =~= old(self).content.templates@
                },
            },
    {
        self.content.remove_template(name)
    }
}

} // verus!
