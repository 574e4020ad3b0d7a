//! The acquisition mode, with an explicit not-yet-chosen variant.

use crate::text::str_eq;
use vstd::prelude::*;

verus! {

/// The acquisition mode that a mode string denotes; anything besides
/// `"git"` and `"tar"` is left uninitialized.
pub open spec fn spec_mode_of(s: Seq<char>) -> Mode {
    if s == "git"@ {
        Mode::Git
    } else if s == "tar"@ {
        Mode::Tar
    } else {
        Mode::Uninitialized
    }
}

/// The acquisition strategy chosen on the command line.
#[derive(Debug, Clone, PartialEq)]
pub enum Mode {
    Git,
    Tar,
    Uninitialized,
}

impl From<&String> for Mode {
    /// Maps `"git"` and `"tar"` to their modes; anything else is
    /// `Uninitialized`.
    fn from(value: &String) -> (r: Mode)
        ensures
            r == spec_mode_of(value@),
    {
        if str_eq(value.as_str(), "git") {
            Mode::Git
        } else if str_eq(value.as_str(), "tar") {
            Mode::Tar
        } else {
            Mode::Uninitialized
        }
    }
}

impl vstd::std_specs::convert::FromSpecImpl<&String> for Mode {
    open spec fn obeys_from_spec() -> bool {
        true
    }

    open spec fn from_spec(v: &String) -> Mode {
        spec_mode_of(v@)
    }
}

} // verus!
