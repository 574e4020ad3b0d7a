//! The hosting site a source URL points at.

use crate::text::{from_chars, spec_lower, str_eq, to_chars};
use vstd::prelude::*;

verus! {

/// The site that a host string denotes, compared case-insensitively.
pub open spec fn spec_site_of(s: Seq<char>) -> Site {
    if spec_lower(s) == "github"@ {
        Site::Github
    } else if spec_lower(s) == "gitlab"@ {
        Site::Gitlab
    } else {
        Site::Unknown
    }
}

/// The site that an exact host string denotes, or none.
pub open spec fn spec_site_from_str(s: Seq<char>) -> Option<Site> {
    if s == "github"@ {
        Some(Site::Github)
    } else if s == "gitlab"@ {
        Some(Site::Gitlab)
    } else {
        None
    }
}

/// A provider whose archive URL layout is known.
#[derive(Debug, Clone, PartialEq, Eq, PartialOrd, Ord, Copy)]
pub enum Site {
    Github,
    Gitlab,
    Unknown,
}

impl Site {
    /// The canonical label of the site; `Unknown` has none and answers
    /// the empty string.
    pub fn to_str(&self) -> (r: &'static str)
        ensures
            *self == Site::Github ==> r@ == "github"@,
            *self == Site::Gitlab ==> r@ == "gitlab"@,
            *self == Site::Unknown ==> r@ == ""@,
    {
        match self {
            Site::Github => "github",
            Site::Gitlab => "gitlab",
            Site::Unknown => "",
        }
    }

    /// The site with the given canonical label, or none.
    pub fn from_str(s: &str) -> (r: Option<Site>)
        ensures
            r == spec_site_from_str(s@),
    {
        if str_eq(s, "github") {
            Some(Site::Github)
        } else if str_eq(s, "gitlab") {
            Some(Site::Gitlab)
        } else {
            None
        }
    }
}

impl From<String> for Site {
    /// Maps `"github"` and `"gitlab"`, in any letter case, to their
    /// sites; anything else is `Unknown`.
    fn from(value: String) -> (r: Site)
        ensures
            r == spec_site_of(value@),
    {
        let chars = to_chars(value.as_str());
        let lowered = crate::text::lower_chars(&chars);
        let lowered_str = from_chars(&lowered);
        if str_eq(lowered_str.as_str(), "github") {
            Site::Github
        } else if str_eq(lowered_str.as_str(), "gitlab") {
            Site::Gitlab
        } else {
            Site::Unknown
        }
    }
}

impl vstd::std_specs::convert::FromSpecImpl<String> for Site {
    open spec fn obeys_from_spec() -> bool {
        true
    }

    open spec fn from_spec(v: String) -> Site {
        spec_site_of(v@)
    }
}

} // verus!
