//! Searching the examples of a Rust crate.

pub mod cache;
pub mod extraction;
pub mod github;
pub mod pattern;
pub mod version;

pub use cache::CacheManager;
pub use extraction::CrateExtractor;
pub use github::GitHubFallback;
pub use pattern::Pattern;
pub use version::VersionResolver;

use crate::error::EgError;
use crate::example::{example_views, Example, ExampleView, SearchResult};
use crate::rust::cache::cached_archive_path;
use crate::rust::pattern::regex_accepts;
use crate::rust::extraction::{
    download_url_of, extracted, file_name_of, pattern_view, ExtractFault,
};
use vstd::prelude::*;

verus! {

/// A search for the examples of one crate, as its caller set it up.
pub struct RustCrateSearch {
    crate_name: String,
    version_spec: Option<String>,
    pattern: Option<Pattern>,
}

/// What a [`RustCrateSearch`] holds, as mathematical values.
pub struct RustCrateSearchView {
    pub crate_name: Seq<char>,
    pub version_spec: Option<Seq<char>>,
    pub pattern: Option<Seq<char>>,
}

impl View for RustCrateSearch {
    type V = RustCrateSearchView;

    closed spec fn view(&self) -> RustCrateSearchView {
        RustCrateSearchView {
            crate_name: self.crate_name@,
            version_spec: match self.version_spec {
                Some(spec) => Some(spec@),
                None => None,
            },
            pattern: match self.pattern {
                Some(p) => Some(p@),
                None => None,
            },
        }
    }
}

/// What happened since the last step of a search. Events that belong to a
/// resolved version carry it.
#[derive(Debug, Clone, PartialEq, Eq)]
pub enum SearchEvent {
    /// Nothing yet.
    Started,
    /// The version to search was resolved.
    Resolved { version: String },
    /// The cache was probed: `found` says whether the archive is there.
    CacheProbed { version: String, found: bool },
    /// The cached archive was read.
    ArchiveRead { version: String, archive: Vec<u8> },
    /// The download answered with `status` and delivered `body`.
    Downloaded { version: String, status: u16, body: Vec<u8> },
    /// The repository fallback ended with `examples`.
    FallbackDone { version: String, examples: Vec<Example> },
    /// The repository fallback failed with `error`.
    FallbackFailed { version: String, error: EgError },
    /// A collaborator failed.
    Failed(EgError),
}

/// What a search does next.
#[derive(Debug, Clone, PartialEq, Eq)]
pub enum SearchAction {
    /// Resolve the version to search.
    ResolveVersion,
    /// Look whether a file exists at `path`.
    ProbeCache { version: String, path: String },
    /// Read the cached archive at `path`.
    ReadArchive { version: String, path: String },
    /// Download the archive from `url`.
    Download { version: String, url: String },
    /// Run the repository fallback.
    RunFallback { version: String },
    /// The search is over.
    Finish(SearchResult),
    /// The search failed.
    Fail(EgError),
}

/// `r` is what follows an archive that was read for `version`: the fault of
/// the archive, the fallback where it holds no examples, or the result.
pub open spec fn follows_archive(
    r: SearchAction,
    version: Seq<char>,
    pattern: Option<Seq<char>>,
    archive: Seq<u8>,
) -> bool {
    match extracted(archive, pattern) {
        Err(ExtractFault::Corrupt) => r matches SearchAction::Fail(EgError::ExtractionFailed(_)),
        Err(ExtractFault::NotText(path)) => r matches SearchAction::Fail(
            EgError::InvalidEncoding(name),
        ) && name@ == file_name_of(path),
        Ok(found) => if found.len() == 0 {
            r matches SearchAction::RunFallback { version: v } && v@ == version
        } else {
            finishes(r, version, found)
        },
    }
}

/// `r` ends the search for `version` with exactly the examples `found`, and
/// with the counts that belong to them.
pub open spec fn finishes(r: SearchAction, version: Seq<char>, found: Seq<ExampleView>) -> bool {
    r matches SearchAction::Finish(result) && result.version@ == version && example_views(
        result.examples@,
    ) == found && result.counts_agree() && result.matched_examples <= result.total_examples
}

/// `r` is the step of `search` that follows `event`, with the cache at
/// `cache_dir`.
pub open spec fn search_step(
    r: SearchAction,
    search: RustCrateSearchView,
    cache_dir: Seq<char>,
    event: SearchEvent,
) -> bool {
    match event {
        SearchEvent::Started => r == SearchAction::ResolveVersion,
        SearchEvent::Resolved { version } => r matches SearchAction::ProbeCache {
            version: v,
            path,
        } && v@ == version@ && path@ == cached_archive_path(cache_dir, search.crate_name, version@),
        SearchEvent::CacheProbed { version, found } => if found {
            r matches SearchAction::ReadArchive { version: v, path } && v@ == version@ && path@
                == cached_archive_path(cache_dir, search.crate_name, version@)
        } else {
            r matches SearchAction::Download { version: v, url } && v@ == version@ && url@
                == download_url_of(search.crate_name, version@)
        },
        SearchEvent::ArchiveRead { version, archive } => follows_archive(
            r,
            version@,
            search.pattern,
            archive@,
        ),
        SearchEvent::Downloaded { version, status, body } => if 200 <= status <= 299 {
            follows_archive(r, version@, search.pattern, body@)
        } else {
            r == SearchAction::Fail(EgError::DownloadFailed(status))
        },
        SearchEvent::FallbackDone { version, examples } => finishes(
            r,
            version@,
            example_views(examples@),
        ),
        SearchEvent::FallbackFailed { version, error } => if error is NoRepositoryUrl {
            finishes(r, version@, Seq::empty())
        } else {
            r == SearchAction::Fail(error)
        },
        SearchEvent::Failed(e) => r == SearchAction::Fail(e),
    }
}

/// A search that finds its archive in the cache gives the same result every
/// time: two steps of the same search on the same archive that end the search
/// end it with the same version, the same examples in the same order and the
/// same counts.
pub proof fn lemma_cached_search_repeatable(
    first: SearchAction,
    second: SearchAction,
    search: RustCrateSearchView,
    cache_dir: Seq<char>,
    version: String,
    archive: Vec<u8>,
)
    requires
        search_step(first, search, cache_dir, SearchEvent::ArchiveRead { version, archive }),
        search_step(second, search, cache_dir, SearchEvent::ArchiveRead { version, archive }),
        first is Finish,
    ensures
        second is Finish,
        first->Finish_0.version@ == second->Finish_0.version@,
        example_views(first->Finish_0.examples@) == example_views(second->Finish_0.examples@),
        first->Finish_0.total_examples == second->Finish_0.total_examples,
        first->Finish_0.matched_examples == second->Finish_0.matched_examples,
{
}

/// An archive that holds no example sends the search to the repository
/// fallback, whether it was read from the cache or downloaded.
pub proof fn lemma_no_examples_triggers_fallback(
    read: SearchAction,
    downloaded: SearchAction,
    search: RustCrateSearchView,
    cache_dir: Seq<char>,
    version: String,
    archive: Vec<u8>,
    status: u16,
)
    requires
        extracted(archive@, search.pattern) == Ok::<Seq<ExampleView>, ExtractFault>(Seq::empty()),
        200 <= status <= 299,
        search_step(read, search, cache_dir, SearchEvent::ArchiveRead { version, archive }),
        search_step(
            downloaded,
            search,
            cache_dir,
            SearchEvent::Downloaded { version, status, body: archive },
        ),
    ensures
        read matches SearchAction::RunFallback { version: v } && v@ == version@,
        downloaded matches SearchAction::RunFallback { version: v } && v@ == version@,
{
}

impl RustCrateSearch {
    /// A search for the examples of the crate `name`, of whatever version
    /// resolution picks and without a pattern.
    pub fn new(name: &str) -> (r: Self)
        ensures
            r@ == (RustCrateSearchView { crate_name: name@, version_spec: None, pattern: None }),
    {
        RustCrateSearch { crate_name: name.to_owned(), version_spec: None, pattern: None }
    }

    /// The same search, held to the version constraint `version`.
    pub fn version(self, version: &str) -> (r: Self)
        ensures
            r@ == (RustCrateSearchView { version_spec: Some(version@), ..self@ }),
    {
        RustCrateSearch {
            crate_name: self.crate_name,
            version_spec: Some(version.to_owned()),
            pattern: self.pattern,
        }
    }

    /// The same search with a pattern compiled from `pattern`, given that
    /// the pattern compiler accepts it, and `InvalidPattern` where it does
    /// not. The pattern is compiled here, once, before the search takes any
    /// step.
    pub fn pattern(self, pattern: &str) -> (r: Result<Self, EgError>)
        ensures
            r is Ok <==> regex_accepts(pattern@),
            r matches Ok(search) ==> search@ == (RustCrateSearchView {
                pattern: Some(pattern@),
                ..self@
            }),
            r matches Err(e) ==> e is InvalidPattern,
    {
        self.with_pattern(Pattern::new(pattern))
    }

    /// The same search with the pattern `compiled`, or the error that
    /// compiling it gave.
    pub fn with_pattern(self, compiled: Result<Pattern, EgError>) -> (r: Result<Self, EgError>)
        ensures
            match compiled {
                Ok(p) => r matches Ok(search) && search@ == (RustCrateSearchView {
                    pattern: Some(p@),
                    ..self@
                }),
                Err(e) => r == Err::<Self, EgError>(e),
            },
    {
        match compiled {
            Ok(p) => Ok(
                RustCrateSearch {
                    crate_name: self.crate_name,
                    version_spec: self.version_spec,
                    pattern: Some(p),
                },
            ),
            Err(e) => Err(e),
        }
    }

    /// The crate to search.
    pub fn crate_name(&self) -> (r: &str)
        ensures
            r@ == self@.crate_name,
    {
        self.crate_name.as_str()
    }

    /// The version constraint, if the caller gave one.
    pub fn version_spec(&self) -> (r: Option<&str>)
        ensures
            match r {
                Some(spec) => self@.version_spec == Some(spec@),
                None => self@.version_spec is None,
            },
    {
        match &self.version_spec {
            Some(spec) => Some(spec.as_str()),
            None => None,
        }
    }

    /// The pattern to look for, if the caller gave one.
    pub fn compiled_pattern(&self) -> (r: Option<&Pattern>)
        ensures
            pattern_view(r) == self@.pattern,
    {
        self.pattern.as_ref()
    }

    /// What follows an archive that was read for `version`.
    fn after_archive(&self, version: String, outcome: Result<Vec<Example>, EgError>) -> (r:
        SearchAction)
        ensures
            match outcome {
                Ok(examples) => if examples@.len() == 0 {
                    r matches SearchAction::RunFallback { version: v } && v@ == version@
                } else {
                    finishes(r, version@, example_views(examples@))
                },
                Err(e) => r == SearchAction::Fail(e),
            },
    {
        match outcome {
            Ok(examples) => {
                if examples.len() == 0 {
                    SearchAction::RunFallback { version }
                } else {
                    SearchAction::Finish(SearchResult::new(version, examples))
                }
            },
            Err(e) => SearchAction::Fail(e),
        }
    }

    /// The next step of the search after `event`.
    ///
    /// A search resolves its version, looks for the archive in the cache,
    /// reads it from there or downloads it, and takes the examples out of it;
    /// where the archive holds none, the repository fallback supplies them.
    /// A fallback that finds no repository URL leaves the search without
    /// examples; every other failure ends the search with that failure.
    pub fn search(&self, cache: &CacheManager, event: SearchEvent) -> (r: SearchAction)
        ensures
            search_step(r, self@, cache@, event),
    {
        let extractor = CrateExtractor::new();
        match event {
            SearchEvent::Started => SearchAction::ResolveVersion,
            SearchEvent::Resolved { version } => {
                let path = cache.expected_path(self.crate_name.as_str(), version.as_str());
                SearchAction::ProbeCache { version, path }
            },
            SearchEvent::CacheProbed { version, found } => {
                match cache.find_cached_crate(self.crate_name.as_str(), version.as_str(), found) {
                    Some(path) => SearchAction::ReadArchive { version, path },
                    None => {
                        let url = extractor.download_url(
                            self.crate_name.as_str(),
                            version.as_str(),
                        );
                        SearchAction::Download { version, url }
                    },
                }
            },
            SearchEvent::ArchiveRead { version, archive } => {
                let outcome = extractor.extract_examples_from_file(
                    archive.as_slice(),
                    self.pattern.as_ref(),
                );
                self.after_archive(version, outcome)
            },
            SearchEvent::Downloaded { version, status, body } => {
                let outcome = extractor.extract_examples_from_download(
                    status,
                    body.as_slice(),
                    self.pattern.as_ref(),
                );
                self.after_archive(version, outcome)
            },
            SearchEvent::FallbackDone { version, examples } => SearchAction::Finish(
                SearchResult::new(version, examples),
            ),
            SearchEvent::FallbackFailed { version, error } => match error {
                EgError::NoRepositoryUrl(_) => {
                    let nothing: Vec<Example> = Vec::new();
                    assert(example_views(nothing@) =~= Seq::empty());
                    SearchAction::Finish(SearchResult::new(version, nothing))
                },
                other => SearchAction::Fail(other),
            },
            SearchEvent::Failed(e) => SearchAction::Fail(e),
        }
    }
}

} // verus!
