//! Searching the example programs that ship with a published crate.
//!
//! The library decides which version of a crate to inspect, picks the example
//! sources out of its archive (or out of a repository listing), and locates a
//! pattern's occurrences in them by byte, line and column.
//!
//! It never touches the network or the disk itself. A search is a sequence
//! of steps: [`RustCrateSearch::search`] says what to do next (resolve the
//! version, probe the cache, read or download the archive, run the fallback),
//! the caller does it and reports back, and the library decides again, until
//! the search is finished or has failed. Version resolution
//! ([`rust::VersionResolver::resolve_version`]) and the repository fallback
//! ([`rust::GitHubFallback::search_examples`]) are driven in the same way.

pub mod error;
pub mod example;
pub mod lines;
pub mod position;
pub mod rust;
pub mod text;

pub use error::EgError;
pub use example::{Example, Match, SearchResult};
pub use position::SearchRange;
pub use rust::RustCrateSearch;

use vstd::prelude::*;

verus! {

/// Where every search begins.
pub struct Eg;

impl Eg {
    /// A search for the examples of the Rust crate `name`.
    pub fn rust_crate(name: &str) -> (r: RustCrateSearch)
        ensures
            r@ == (rust::RustCrateSearchView { crate_name: name@, version_spec: None, pattern: None }),
    {
        RustCrateSearch::new(name)
    }
}

} // verus!
