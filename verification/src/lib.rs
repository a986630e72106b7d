//! A directory-listing library that augments directory entries with git
//! repository metadata: whether an entry is a working copy, which remote
//! hosting provider its configuration names, and a human-readable
//! description kept in the repository's description file or fetched from
//! the provider's API.
//!
//! The crate holds the decision logic only.  Callers perform the actual
//! directory enumeration, file reads and writes, and network requests, and
//! hand the observed values in as plain data; every rule about those values
//! is stated in a contract and verified.

use vstd::prelude::*;

pub mod file;
pub mod format;
pub mod paint;
pub mod parse;
pub mod provider;
pub mod repo;
pub mod sync;

verus! {

/// The toggles a caller passes in, mirrored from the command line.
#[derive(Debug, Clone)]
pub struct Args {
    /// The directory to list, when not the current one.
    pub path: Option<String>,
    /// Include entries whose name starts with a dot.
    pub all: bool,
    /// Show one entry per line, with its description.
    pub list: bool,
    /// Synchronize descriptions with the remote hosting provider.
    pub sync: bool,
}

} // verus!
