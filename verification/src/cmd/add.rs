//! The add command's configuration store.

pub mod config;
