//! Acquisition pipeline for project templates: URL resolution, remote
//! reference listing, archive caching and safe extraction, destination
//! path confinement, and a persisted registry of named templates.

pub mod clone;
pub mod cmd;
pub mod code;
pub mod fetch;
pub mod file;
pub mod git;
pub mod manifest;
pub mod models;
pub mod regex;
pub mod text;

use vstd::prelude::*;

verus! {

/// The error classes that the pipeline reports.
///
/// `Input` covers malformed URLs, unsafe destination paths and template
/// names with traversal segments; `Transport` covers subprocess, HTTP and
/// archive failures; `StateConflict` covers non-empty destinations and
/// missing templates; `Io` covers filesystem failures.
#[derive(Debug, Clone, Copy, PartialEq, Eq)]
pub enum ErrorKind {
    Input,
    Transport,
    StateConflict,
    Io,
}

/// An error with its class and a human-readable message.
#[derive(Debug, Clone)]
pub struct Error {
    pub kind: ErrorKind,
    pub message: String,
}

impl Error {
    /// Builds an error of the given class with the given message.
    pub fn new(kind: ErrorKind, message: String) -> (r: Error)
        ensures
            r.kind == kind,
            r.message@ == message@,
    {
        Error { kind, message }
    }

    /// The class of this error.
    pub fn kind(&self) -> (r: ErrorKind)
        ensures
            r == self.kind,
    {
        self.kind
    }
}

} // verus!
