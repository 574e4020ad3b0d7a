//! The building blocks of the command layer that are part of the
//! library: the git invocation and the add command's configuration.

pub mod add;
pub mod git;
