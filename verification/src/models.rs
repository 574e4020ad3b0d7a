//! Closed tagged variants for the acquisition mode and the hosting site.

pub mod mode;
pub mod site;

pub use site::Site;

use crate::text::str_eq;
use vstd::prelude::*;

verus! {

/// The acquisition mode that a mode string denotes.
pub open spec fn spec_mode_of(s: Seq<char>) -> Mode {
    if s == "git"@ {
        Mode::Git
    } else if s == "tar"@ {
        Mode::Tar
    } else {
        Mode::Unknown
    }
}

/// The acquisition strategy chosen on the command line.
#[derive(Debug, Clone, PartialEq)]
pub enum Mode {
    Git,
    Tar,
    Unknown,
}

impl From<&String> for Mode {
    /// Maps `"git"` and `"tar"` to their modes; anything else is `Unknown`.
    fn from(value: &String) -> (r: Mode)
        ensures
            r == spec_mode_of(value@),
    {
        if str_eq(value.as_str(), "git") {
            Mode::Git
        } else if str_eq(value.as_str(), "tar") {
            Mode::Tar
        } else {
            Mode::Unknown
        }
    }
}

impl vstd::std_specs::convert::FromSpecImpl<&String> for Mode {
    open spec fn obeys_from_spec() -> bool {
        true
    }

    open spec fn from_spec(v: &String) -> Mode {
        spec_mode_of(v@)
    }
}

} // verus!
