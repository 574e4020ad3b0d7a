//! The acquisition request as the command line resolved it.

use crate::models::Mode;
use vstd::prelude::*;

verus! {

/// One resolved request: where to put the result, how to fetch it,
/// whether existing files may be destroyed, whether history is kept,
/// and which branch was asked for (`INTERACTIVE` standing for an
/// interactive choice).
#[derive(Debug)]
pub struct Config<'a> {
    pub dir: &'a String,
    pub mode: Mode,
    pub force: bool,
    pub keep_history: bool,
    pub branch: Option<&'a String>,
}

impl<'a> Config<'a> {
    /// A request from its five parts.
    pub fn from(
        dir: &'a String,
        mode: Mode,
        force: bool,
        keep_history: bool,
        branch: Option<&'a String>,
    ) -> (r: Config<'a>)
        ensures
            r.dir == dir,
            r.mode == mode,
            r.force == force,
            r.keep_history == keep_history,
            r.branch == branch,
    {
        Config { dir, mode, force, keep_history, branch }
    }
}

} // verus!
