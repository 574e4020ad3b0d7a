//! The configuration that the add command reads and writes: a named
//! collection of templates and the file that holds it.

pub use crate::manifest::Template;
pub use crate::manifest::TemplateMap;

use crate::manifest::{spec_has_name, spec_name_index, TemplateView};
use vstd::prelude::*;

verus! {

/// The templates the add command has collected, by name.
pub struct TempConfig {
    pub templates: TemplateMap,
}

impl TempConfig {
    /// An empty collection.
    pub fn new() -> (r: TempConfig)
        ensures
            r.templates@ =~= Seq::<(Seq<char>, TemplateView)>::empty(),
            r.templates.wf(),
    {
        TempConfig { templates: TemplateMap::new() }
    }

    /// Registers `template` under `name`, overwriting what the name
    /// held before.
    pub fn add_template(&mut self, name: String, template: Template)
        requires
            old(self).templates.wf(),
        ensures
            final(self).templates.wf(),
            final(self).templates@ =~= if spec_has_name(old(self).templates@, name@) {
                old(self).templates@.update(
                    spec_name_index(old(self).templates@, name@),
                    (name@, template@),
                )
            } else {
                old(self).templates@.push((name@, template@))
            },
    {
        self.templates.insert(name, template);
    }
}

/// The place of the configuration file; reading it is the caller's
/// business, parsing it the manifest codec's.
pub struct TomlConfig {
    toml_path: String,
}

impl TomlConfig {
    /// The path the configuration lives at.
    pub closed spec fn spec_path(&self) -> Seq<char> {
        self.toml_path@
    }

    /// A configuration tied to its path.
    pub fn new(toml_path: String) -> (r: TomlConfig)
        ensures
            r.spec_path() == toml_path@,
    {
        TomlConfig { toml_path }
    }

    /// The path the configuration lives at.
    pub fn path(&self) -> (r: &String)
        ensures
            r@ == self.spec_path(),
    {
        &self.toml_path
    }
}

} // verus!
