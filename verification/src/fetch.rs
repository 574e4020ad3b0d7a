//! The resolved acquisition request handed in by the command line.

pub mod config;
