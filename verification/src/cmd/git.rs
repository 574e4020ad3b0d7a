//! The subprocess invocation behind the clone command: the command
//! name and its arguments. The caller spawns it; cloning and listing
//! references are exit-status and output affairs it handles there.

use vstd::prelude::*;

verus! {

/// One `git` invocation being assembled.
pub struct Git<'a> {
    pub cmd: &'a str,
    pub args: Vec<&'a str>,
}

impl<'a> Git<'a> {
    /// A fresh `git` invocation with no arguments.
    pub fn new() -> (r: Git<'a>)
        ensures
            r.cmd@ == "git"@,
            r.args@.len() == 0,
    {
        Git { cmd: "git", args: Vec::new() }
    }

    /// Replaces the invocation's arguments.
    pub fn args(&mut self, args: Vec<&'a str>)
        ensures
            final(self).cmd == old(self).cmd,
            final(self).args == args,
    {
        self.args = args;
    }
}

} // verus!
