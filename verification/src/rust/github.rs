//! Looking for examples in a crate's repository when its archive has none,
//! and reading a file's matching lines with their context.

use crate::error::EgError;
use crate::example::{example_views, match_views, Example, ExampleView, Match, MatchView};
use crate::lines::{lines_of, split_line_texts, texts_of};
use crate::position::LINE_FEED;
use crate::rust::extraction::{matches_in, pattern_view, rust_suffix, CrateExtractor};
use crate::rust::pattern::{regex_spans, Pattern};
use crate::text::{
    after_last_slash, ends_with, ends_with_bytes, name_start, occurs_at, segment_text, stands_at,
    text_eq, utf8_text, SLASH,
};
use vstd::prelude::*;
use vstd::string::*;
use vstd::utf8::*;

verus! {

/// The host name `github.com`, as bytes.
pub open spec fn github_host() -> Seq<u8> {
    seq![0x67u8, 0x69u8, 0x74u8, 0x68u8, 0x75u8, 0x62u8, 0x2eu8, 0x63u8, 0x6fu8, 0x6du8]
}

/// What parts a scheme from what follows it, `://`, as bytes.
pub open spec fn scheme_mark() -> Seq<u8> {
    seq![0x3au8, 0x2fu8, 0x2fu8]
}

/// Where the host of `url` begins, looking from offset `at` on: behind the
/// first `://`, or at 0 where the URL names no scheme.
pub open spec fn host_start_from(url: Seq<u8>, at: int) -> int
    decreases url.len() - at,
{
    if at < 0 || at + 3 > url.len() {
        0
    } else if occurs_at(url, scheme_mark(), at) {
        at + 3
    } else {
        host_start_from(url, at + 1)
    }
}

/// Where the host of `url` begins.
pub open spec fn host_start(url: Seq<u8>) -> int {
    host_start_from(url, 0)
}

/// Where the first slash at or behind `at` stands in `url`, or the end of
/// `url` where there is none.
pub open spec fn next_slash(url: Seq<u8>, at: int) -> int
    decreases url.len() - at,
{
    if at < 0 || at >= url.len() {
        url.len() as int
    } else if url[at] == SLASH {
        at
    } else {
        next_slash(url, at + 1)
    }
}

/// Where the host of `url` ends: at the first slash behind its beginning, or
/// at the end of the URL.
pub open spec fn host_end(url: Seq<u8>) -> int {
    next_slash(url, host_start(url))
}

/// The host of `url`: what stands between the scheme and the path.
pub open spec fn host_bytes(url: Seq<u8>) -> Seq<u8> {
    url.subrange(host_start(url), host_end(url))
}

/// The host of `url` is the hosting service.
pub open spec fn is_on_github(url: Seq<u8>) -> bool {
    host_bytes(url) =~= github_host()
}

/// The ending `.git`, as bytes.
pub open spec fn git_suffix() -> Seq<u8> {
    seq![0x2eu8, 0x67u8, 0x69u8, 0x74u8]
}

/// The length that is left of the first `n` bytes of `url` when every `.git`
/// at their end is taken off.
pub open spec fn trimmed_len(url: Seq<u8>, n: int) -> int
    decreases n,
{
    if 4 <= n <= url.len() && occurs_at(url, git_suffix(), n - 4) {
        trimmed_len(url, n - 4)
    } else {
        n
    }
}

/// Where the trimmed URL ends.
pub open spec fn repo_end(url: Seq<u8>) -> int {
    trimmed_len(url, url.len() as int)
}

/// Where the last component of the trimmed URL begins.
pub open spec fn repo_start(url: Seq<u8>) -> int {
    name_start(url, repo_end(url))
}

/// Where the component before the last begins.
pub open spec fn owner_start(url: Seq<u8>) -> int {
    name_start(url, repo_start(url) - 1)
}

/// The URL names an owner and a repository: the last two components of the
/// trimmed URL stand behind its host, and neither is empty.
pub open spec fn names_repository(url: Seq<u8>) -> bool {
    &&& host_end(url) < owner_start(url)
    &&& owner_start(url) < repo_start(url) - 1
    &&& repo_start(url) < repo_end(url)
}

/// The component before the last of the trimmed URL.
pub open spec fn owner_bytes(url: Seq<u8>) -> Seq<u8> {
    url.subrange(owner_start(url), repo_start(url) - 1)
}

/// The last component of the trimmed URL.
pub open spec fn repo_bytes(url: Seq<u8>) -> Seq<u8> {
    url.subrange(repo_start(url), repo_end(url))
}

/// The first `n` bytes of `bytes` without their line feeds.
pub open spec fn without_line_feeds(bytes: Seq<u8>, n: int) -> Seq<u8>
    decreases n,
{
    if n <= 0 {
        Seq::empty()
    } else if bytes[n - 1] == LINE_FEED {
        without_line_feeds(bytes, n - 1)
    } else {
        without_line_feeds(bytes, n - 1).push(bytes[n - 1])
    }
}

/// The bytes that `input` stands for in base64 with the standard alphabet and
/// padding, or `None` where `input` is no such encoding.
pub uninterp spec fn base64_decoded(input: Seq<u8>) -> Option<Seq<u8>>;

/// Calls `decode` of `base64::engine::general_purpose::STANDARD`, and turns
/// the error into its text.
#[verifier::external_body]
fn base64_decode(input: &[u8]) -> (r: Result<Vec<u8>, String>)
    ensures
        match r {
            Ok(bytes) => base64_decoded(input@) == Some(bytes@),
            Err(_) => base64_decoded(input@) is None,
        },
{
    base64::Engine::decode(&base64::engine::general_purpose::STANDARD, input).map_err(
        |e| e.to_string(),
    )
}

/// One entry of a repository directory listing.
#[derive(Debug, Clone, PartialEq, Eq)]
pub struct RepoItem {
    /// The entry's name within the directory.
    pub name: String,
    /// What the entry is: `file`, `dir`, and so on.
    pub kind: String,
    /// The file's content in transport encoding, where the listing carries it.
    pub content: Option<String>,
}

impl RepoItem {
    /// The entry is a file whose name ends in `.rs` and whose content came
    /// with the listing.
    pub open spec fn is_source(&self) -> bool {
        &&& self.kind@ == "file"@
        &&& ends_with_bytes(encode_utf8(self.name@), rust_suffix())
        &&& self.content is Some
    }

    /// The content as transported, without its line breaks.
    pub open spec fn payload(&self) -> Seq<u8> {
        let encoded = encode_utf8(self.content->0@);
        without_line_feeds(encoded, encoded.len() as int)
    }
}

/// Why a listing yields no examples.
pub enum ScanFault {
    /// A source file's content is no base64.
    Undecodable,
    /// The content of the source file of this name is not UTF-8 text.
    NotText(Seq<char>),
}

/// What the first `n` entries of a listing yield: the source files among them
/// in listed order, or the fault of the first one that has a fault.
pub open spec fn scanned_upto(items: Seq<RepoItem>, pattern: Option<Seq<char>>, n: int) -> Result<
    Seq<ExampleView>,
    ScanFault,
>
    decreases n,
{
    if n <= 0 {
        Ok(Seq::empty())
    } else {
        match scanned_upto(items, pattern, n - 1) {
            Err(fault) => Err(fault),
            Ok(found) => if !items[n - 1].is_source() {
                Ok(found)
            } else {
                match base64_decoded(items[n - 1].payload()) {
                    None => Err(ScanFault::Undecodable),
                    Some(data) => if !valid_utf8(data) {
                        Err(ScanFault::NotText(items[n - 1].name@))
                    } else {
                        Ok(
                            found.push(
                                ExampleView::InMemory {
                                    filename: items[n - 1].name@,
                                    contents: decode_utf8(data),
                                    search_matches: matches_in(data, pattern),
                                },
                            ),
                        )
                    },
                }
            },
        }
    }
}

/// A fault among the first `n` entries is the fault of every longer prefix.
pub proof fn lemma_scan_fault_persists(
    items: Seq<RepoItem>,
    pattern: Option<Seq<char>>,
    n: int,
    m: int,
)
    requires
        n <= m,
        scanned_upto(items, pattern, n) is Err,
    ensures
        scanned_upto(items, pattern, m) == scanned_upto(items, pattern, n),
    decreases m - n,
{
    if n < m {
        lemma_scan_fault_persists(items, pattern, n, m - 1);
    }
}

/// The outcome `r` reports exactly what `expected` describes.
pub open spec fn reports_scan(
    r: Result<Vec<Example>, EgError>,
    expected: Result<Seq<ExampleView>, ScanFault>,
) -> bool {
    match expected {
        Ok(found) => r matches Ok(examples) && example_views(examples@) == found,
        Err(ScanFault::Undecodable) => r matches Err(EgError::EncodingError(_)),
        Err(ScanFault::NotText(file)) => r matches Err(EgError::InvalidEncoding(name)) && name@
            == file,
    }
}

/// `bytes` without its line feeds.
pub fn strip_line_feeds(bytes: &[u8]) -> (r: Vec<u8>)
    ensures
        r@ == without_line_feeds(bytes@, bytes.len() as int),
{
    let mut r: Vec<u8> = Vec::new();
    let mut i: usize = 0;
    while i < bytes.len()
        invariant
            i <= bytes.len(),
            r@ == without_line_feeds(bytes@, i as int),
        decreases bytes.len() - i,
    {
        if bytes[i] != LINE_FEED {
            r.push(bytes[i]);
        }
        i += 1;
    }
    r
}

/// Where the host of `url` begins.
pub fn find_host_start(url: &[u8]) -> (start: usize)
    ensures
        start == host_start(url@),
        start <= url.len(),
{
    let mark: Vec<u8> = vec![0x3a, 0x2f, 0x2f];
    assert(mark@ =~= scheme_mark());
    let n: usize = url.len();
    if n < 3 {
        return 0;
    }
    let mut at: usize = 0;
    while at <= n - 3
        invariant
            n == url.len(),
            n >= 3,
            at <= n - 3 + 1,
            mark@ == scheme_mark(),
            host_start_from(url@, at as int) == host_start(url@),
        decreases n - at,
    {
        if stands_at(url, mark.as_slice(), at) {
            return at + 3;
        }
        at += 1;
    }
    0
}

/// Where the host of `url` begins and where it ends.
pub fn host_span(url: &[u8]) -> (r: (usize, usize))
    ensures
        r.0 == host_start(url@),
        r.1 == host_end(url@),
        r.0 <= r.1 <= url.len(),
{
    let start: usize = find_host_start(url);
    let mut end: usize = start;
    while end < url.len() && url[end] != SLASH
        invariant
            start <= end <= url.len(),
            next_slash(url@, end as int) == next_slash(url@, start as int),
        decreases url.len() - end,
    {
        end += 1;
    }
    (start, end)
}

/// Where `url` ends once every `.git` at its end is taken off.
pub fn trimmed_end(url: &[u8]) -> (n: usize)
    ensures
        n == repo_end(url@),
        n <= url.len(),
        n < url.len() ==> url@[n as int] == 0x2e,
{
    let suffix: Vec<u8> = vec![0x2e, 0x67, 0x69, 0x74];
    assert(suffix@ =~= git_suffix());
    let mut n: usize = url.len();
    while n >= 4 && stands_at(url, suffix.as_slice(), n - 4)
        invariant
            n <= url.len(),
            suffix@ == git_suffix(),
            trimmed_len(url@, n as int) == repo_end(url@),
            n < url.len() ==> url@[n as int] == 0x2e,
        decreases n,
    {
        assert(url@.subrange(n - 4, n - 4 + 4)[0] == url@[n - 4]);
        n -= 4;
    }
    n
}

/// What the hosting service knows of a crate, as far as a step of the
/// fallback needs it.
#[derive(Debug, Clone, PartialEq, Eq)]
pub enum FallbackAnswer {
    /// The repository URL that the registry records, if it records one.
    RepositoryUrl(Option<String>),
    /// The entries of the repository's `examples` directory.
    Listing(Vec<RepoItem>),
    /// The repository has no `examples` directory.
    NoListing,
    /// The registry or the hosting service failed.
    Unavailable(String),
}

/// What the fallback does next.
#[derive(Debug, Clone, PartialEq, Eq)]
pub enum FallbackStep {
    /// Ask the registry for the crate's repository URL.
    AskRepositoryUrl,
    /// List the `examples` directory of this repository.
    ListExamples { owner: String, repo: String },
    /// The fallback is over, with these examples.
    Done(Vec<Example>),
    /// The fallback failed.
    Failed(EgError),
}

/// Where the context before line `i` begins, with `context` lines of context.
pub open spec fn context_from(i: int, context: int) -> int {
    if i >= context {
        i - context
    } else {
        0
    }
}

/// Where the context after line `i` of `n` lines ends.
pub open spec fn context_to(i: int, context: int, n: int) -> int {
    if i + context + 1 <= n {
        i + context + 1
    } else {
        n
    }
}

/// Line `i` of `lines` as a match in the file `path`, with up to `context`
/// lines before it and after it.
pub open spec fn line_match(
    path: Seq<char>,
    lines: Seq<Seq<char>>,
    i: int,
    context: int,
) -> MatchView {
    MatchView {
        file_path: path,
        line_number: (i + 1) as usize,
        line_content: lines[i],
        context_before: lines.subrange(context_from(i, context), i),
        context_after: lines.subrange(i + 1, context_to(i, context, lines.len() as int)),
    }
}

/// The matches among the first `n` of `lines`: one for each line in which
/// the pattern matches, in the order of the lines.
pub open spec fn line_matches(
    path: Seq<char>,
    lines: Seq<Seq<char>>,
    pattern: Seq<char>,
    context: int,
    n: int,
) -> Seq<MatchView>
    decreases n,
{
    if n <= 0 {
        Seq::empty()
    } else if regex_spans(pattern, lines[n - 1]).len() > 0 {
        line_matches(path, lines, pattern, context, n - 1).push(
            line_match(path, lines, n - 1, context),
        )
    } else {
        line_matches(path, lines, pattern, context, n - 1)
    }
}

/// The lines `[from, to)` of `lines`, copied.
pub fn copy_lines(lines: &Vec<String>, from: usize, to: usize) -> (r: Vec<String>)
    requires
        from <= to <= lines.len(),
    ensures
        texts_of(r@) == texts_of(lines@).subrange(from as int, to as int),
{
    let mut r: Vec<String> = Vec::new();
    let mut k: usize = from;
    while k < to
        invariant
            from <= k <= to <= lines.len(),
            r@.len() == k - from,
            forall|j: int| 0 <= j < r@.len() ==> (#[trigger] r@[j])@ == lines@[from + j]@,
        decreases to - k,
    {
        r.push(lines[k].clone());
        k += 1;
    }
    assert(texts_of(r@) =~= texts_of(lines@).subrange(from as int, to as int));
    r
}

/// The step ends the fallback with no examples.
pub open spec fn ends_empty(r: FallbackStep) -> bool {
    r matches FallbackStep::Done(examples) && examples@.len() == 0
}

/// `r` is the step that follows the answer `heard` in a search for `pattern`
/// in the repository of `crate_name`.
pub open spec fn fallback_step(
    r: FallbackStep,
    crate_name: Seq<char>,
    pattern: Option<Seq<char>>,
    heard: Option<&FallbackAnswer>,
) -> bool {
    match heard {
        None => r == FallbackStep::AskRepositoryUrl,
        Some(FallbackAnswer::RepositoryUrl(None)) => r matches FallbackStep::Failed(
            EgError::NoRepositoryUrl(name),
        ) && name@ == crate_name,
        Some(FallbackAnswer::RepositoryUrl(Some(url))) => {
            let bytes = encode_utf8(url@);
            if !is_on_github(bytes) {
                ends_empty(r)
            } else if !names_repository(bytes) {
                r matches FallbackStep::Failed(EgError::InvalidRepositoryUrl(rest)) && rest@
                    == decode_utf8(bytes.subrange(0, repo_end(bytes)))
            } else {
                r matches FallbackStep::ListExamples { owner, repo } && owner@ == decode_utf8(
                    owner_bytes(bytes),
                ) && repo@ == decode_utf8(repo_bytes(bytes))
            }
        },
        Some(FallbackAnswer::Listing(items)) => match scanned_upto(
            items@,
            pattern,
            items.len() as int,
        ) {
            Ok(found) => r matches FallbackStep::Done(examples) && example_views(examples@)
                == found,
            Err(ScanFault::Undecodable) => r matches FallbackStep::Failed(
                EgError::EncodingError(_),
            ),
            Err(ScanFault::NotText(file)) => r matches FallbackStep::Failed(
                EgError::InvalidEncoding(name),
            ) && name@ == file,
        },
        Some(FallbackAnswer::NoListing) => ends_empty(r),
        Some(FallbackAnswer::Unavailable(why)) => r matches FallbackStep::Failed(
            EgError::Transport(said),
        ) && said@ == why@,
    }
}

/// A repository that does not lie on the hosting service ends the fallback
/// with no examples and without an error.
pub proof fn lemma_foreign_host_ends_empty(
    r: FallbackStep,
    crate_name: Seq<char>,
    pattern: Option<Seq<char>>,
    url: String,
)
    requires
        fallback_step(r, crate_name, pattern, Some(&FallbackAnswer::RepositoryUrl(Some(url)))),
        !is_on_github(encode_utf8(url@)),
    ensures
        ends_empty(r),
{
}

/// A listing is scanned with or without a pattern: without one, every source
/// file that decodes counts as an example and holds no match.
pub proof fn lemma_listing_counts_without_pattern(items: Seq<RepoItem>, n: int)
    requires
        0 <= n <= items.len(),
    ensures
        scanned_upto(items, None, n) matches Ok(found) ==> forall|i: int|
            0 <= i < found.len() ==> (#[trigger] found[i]).matches().len() == 0,
    decreases n,
{
    if n > 0 {
        lemma_listing_counts_without_pattern(items, n - 1);
    }
}

/// The last component begins behind a slash or at the beginning, and holds
/// no slash.
pub proof fn lemma_name_start(path: Seq<u8>, n: int)
    requires
        0 <= n <= path.len(),
    ensures
        0 <= name_start(path, n) <= n,
        name_start(path, n) > 0 ==> path[name_start(path, n) - 1] == SLASH,
        forall|k: int| name_start(path, n) <= k < n ==> path[k] != SLASH,
    decreases n,
{
    if n > 0 && path[n - 1] != SLASH {
        lemma_name_start(path, n - 1);
    }
}

/// What is left of a URL without its `.git` does not end in `.git`.
pub proof fn lemma_trimmed(url: Seq<u8>, n: int)
    requires
        0 <= n <= url.len(),
    ensures
        0 <= trimmed_len(url, n) <= n,
        !(4 <= trimmed_len(url, n) && occurs_at(url, git_suffix(), trimmed_len(url, n) - 4)),
    decreases n,
{
    if 4 <= n && occurs_at(url, git_suffix(), n - 4) {
        lemma_trimmed(url, n - 4);
    }
}

/// The owner and the repository that a URL names are not empty and hold no
/// slash, the repository does not end in `.git`, and the URL holds the owner,
/// a slash and the repository, in this order and behind its host.
pub proof fn lemma_repository_names(url: Seq<u8>)
    requires
        names_repository(url),
    ensures
        owner_bytes(url).len() > 0,
        repo_bytes(url).len() > 0,
        forall|k: int| 0 <= k < owner_bytes(url).len() ==> owner_bytes(url)[k] != SLASH,
        forall|k: int| 0 <= k < repo_bytes(url).len() ==> repo_bytes(url)[k] != SLASH,
        !ends_with_bytes(repo_bytes(url), git_suffix()),
        host_end(url) < owner_start(url) <= repo_end(url) <= url.len(),
        url.subrange(owner_start(url), repo_end(url)) =~= owner_bytes(url) + seq![SLASH]
            + repo_bytes(url),
{
    lemma_trimmed(url, url.len() as int);
    let end = repo_end(url);
    lemma_name_start(url, end);
    let repo_at = repo_start(url);
    lemma_name_start(url, repo_at - 1);
    let repo = repo_bytes(url);
    if ends_with_bytes(repo, git_suffix()) {
        assert(url.subrange(end - 4, end) =~= repo.subrange(repo.len() - 4, repo.len() as int));
        assert(occurs_at(url, git_suffix(), end - 4));
    }
}

/// Searches a crate's repository for examples.
pub struct GitHubFallback;

impl GitHubFallback {
    pub fn new() -> (r: Self) {
        GitHubFallback
    }

    /// Whether `url` lies on the hosting service: whether its host, which is
    /// what stands between `://` (or the beginning) and the next slash, is
    /// `github.com`.
    pub fn is_github_url(&self, url: &str) -> (r: bool)
        ensures
            r == is_on_github(url.spec_bytes()),
    {
        let host: Vec<u8> = vec![0x67, 0x69, 0x74, 0x68, 0x75, 0x62, 0x2e, 0x63, 0x6f, 0x6d];
        assert(host@ =~= github_host());
        let bytes = url.as_bytes();
        let (start, end) = host_span(bytes);
        end - start == 10 && stands_at(bytes, host.as_slice(), start)
    }

    /// The owner and the repository that `url` names: the last two components
    /// of the URL without any `.git` at its end. Both stand behind the host,
    /// and neither is empty; a URL that does not name both is
    /// `InvalidRepositoryUrl`, with what is left of it without its `.git`.
    pub fn parse_github_url(&self, url: &str) -> (r: Result<(String, String), EgError>)
        ensures
            names_repository(url.spec_bytes()) ==> (r matches Ok((owner, repo)) && owner@
                == decode_utf8(owner_bytes(url.spec_bytes())) && repo@ == decode_utf8(
                repo_bytes(url.spec_bytes()),
            )),
            !names_repository(url.spec_bytes()) ==> (r matches Err(
                EgError::InvalidRepositoryUrl(rest),
            ) && rest@ == decode_utf8(url.spec_bytes().subrange(0, repo_end(url.spec_bytes())))),
    {
        let bytes = url.as_bytes();
        proof {
            encode_utf8_valid_utf8(url@);
        }
        let end: usize = trimmed_end(bytes);
        let (_, host_to) = host_span(bytes);
        let repo_at: usize = after_last_slash(bytes, end);
        if repo_at == 0 || repo_at >= end {
            return Err(EgError::InvalidRepositoryUrl(segment_text(bytes, 0, end)));
        }
        let owner_at: usize = after_last_slash(bytes, repo_at - 1);
        if owner_at <= host_to || owner_at >= repo_at - 1 {
            return Err(EgError::InvalidRepositoryUrl(segment_text(bytes, 0, end)));
        }
        let owner = segment_text(bytes, owner_at, repo_at - 1);
        let repo = segment_text(bytes, repo_at, end);
        Ok((owner, repo))
    }

    /// The next step of the fallback for a search with `pattern`, after the
    /// answer `heard` (none yet at the start).
    ///
    /// It asks for the repository URL, then lists the repository's `examples`
    /// directory, then scans the listing, with or without a pattern: without
    /// one the files found hold no match and count as examples all the
    /// same. A repository on another host and a repository
    /// without an `examples` directory end it with no examples. A crate
    /// without a repository URL is `NoRepositoryUrl`; a URL that names no
    /// repository, a listing that cannot be decoded and a collaborator's
    /// failure make it fail as well. The version plays no part: the
    /// repository is listed as it stands.
    pub fn search_examples(
        &self,
        crate_name: &str,
        _version: &str,
        pattern: Option<&Pattern>,
        heard: Option<&FallbackAnswer>,
    ) -> (r: FallbackStep)
        ensures
            fallback_step(r, crate_name@, pattern_view(pattern), heard),
    {
        match heard {
            None => FallbackStep::AskRepositoryUrl,
            Some(FallbackAnswer::RepositoryUrl(None)) => FallbackStep::Failed(
                EgError::NoRepositoryUrl(crate_name.to_owned()),
            ),
            Some(FallbackAnswer::RepositoryUrl(Some(url))) => {
                if !self.is_github_url(url.as_str()) {
                    FallbackStep::Done(Vec::new())
                } else {
                    match self.parse_github_url(url.as_str()) {
                        Ok((owner, repo)) => FallbackStep::ListExamples { owner, repo },
                        Err(e) => FallbackStep::Failed(e),
                    }
                }
            },
            Some(FallbackAnswer::Listing(items)) => match self.scan_listing(items, pattern) {
                Ok(examples) => FallbackStep::Done(examples),
                Err(e) => FallbackStep::Failed(e),
            },
            Some(FallbackAnswer::NoListing) => FallbackStep::Done(Vec::new()),
            Some(FallbackAnswer::Unavailable(why)) => FallbackStep::Failed(
                EgError::Transport(why.clone()),
            ),
        }
    }

    /// The lines of `content` in which `pattern` matches, each with up to
    /// `context_lines` lines before it and after it, in the order of the
    /// lines.
    pub fn find_matches_in_content(
        &self,
        file_path: &str,
        content: &str,
        pattern: &Pattern,
        context_lines: usize,
    ) -> (r: Vec<Match>)
        ensures
            match_views(r@) == line_matches(
                file_path@,
                lines_of(content.spec_bytes()),
                pattern@,
                context_lines as int,
                lines_of(content.spec_bytes()).len() as int,
            ),
    {
        proof {
            encode_utf8_valid_utf8(content@);
        }
        let lines = split_line_texts(content.as_bytes());
        let ghost texts = lines_of(content.spec_bytes());
        let n: usize = lines.len();
        let mut matches: Vec<Match> = Vec::new();
        let mut i: usize = 0;
        assert(match_views(matches@) =~= Seq::empty());
        while i < n
            invariant
                i <= n,
                n == lines.len(),
                texts == texts_of(lines@),
                match_views(matches@) == line_matches(
                    file_path@,
                    texts,
                    pattern@,
                    context_lines as int,
                    i as int,
                ),
            decreases n - i,
        {
            assert(texts[i as int] == lines@[i as int]@);
            if pattern.is_match(lines[i].as_str()) {
                let from: usize = if i >= context_lines {
                    i - context_lines
                } else {
                    0
                };
                let to: usize = if context_lines <= n - i - 1 {
                    i + context_lines + 1
                } else {
                    n
                };
                let found = Match {
                    file_path: file_path.to_owned(),
                    line_number: i + 1,
                    line_content: lines[i].clone(),
                    context_before: copy_lines(&lines, from, i),
                    context_after: copy_lines(&lines, i + 1, to),
                };
                let ghost before = match_views(matches@);
                matches.push(found);
                assert(match_views(matches@) =~= before.push(found@));
            }
            i += 1;
        }
        matches
    }

    /// The examples among the entries of a repository's `examples` directory,
    /// in listed order. A source file whose content is no base64 is
    /// `EncodingError`, one whose content is not UTF-8 text is
    /// `InvalidEncoding`; the first such file decides.
    pub fn scan_listing(&self, items: &Vec<RepoItem>, pattern: Option<&Pattern>) -> (r: Result<
        Vec<Example>,
        EgError,
    >)
        ensures
            reports_scan(r, scanned_upto(items@, pattern_view(pattern), items.len() as int)),
    {
        let extractor = CrateExtractor::new();
        let suffix: Vec<u8> = vec![0x2e, 0x72, 0x73];
        assert(suffix@ =~= rust_suffix());
        let ghost wanted = pattern_view(pattern);
        let mut examples: Vec<Example> = Vec::new();
        let mut i: usize = 0;
        assert(example_views(examples@) =~= Seq::empty());
        while i < items.len()
            invariant
                i <= items.len(),
                suffix@ == rust_suffix(),
                wanted == pattern_view(pattern),
                scanned_upto(items@, wanted, i as int) == Ok::<Seq<ExampleView>, ScanFault>(
                    example_views(examples@),
                ),
            decreases items.len() - i,
        {
            let item = &items[i];
            let wanted_kind = text_eq(item.kind.as_str(), "file") && ends_with(
                item.name.as_str().as_bytes(),
                suffix.as_slice(),
            );
            match &item.content {
                Some(content) if wanted_kind => {
                    assert(item.is_source());
                    let payload = strip_line_feeds(content.as_str().as_bytes());
                    let data = match base64_decode(payload.as_slice()) {
                        Ok(data) => data,
                        Err(why) => {
                            proof {
                                lemma_scan_fault_persists(items@, wanted, i + 1, items.len() as int);
                            }
                            return Err(EgError::EncodingError(why));
                        },
                    };
                    let contents = match utf8_text(data) {
                        Some(text) => text,
                        None => {
                            proof {
                                lemma_scan_fault_persists(items@, wanted, i + 1, items.len() as int);
                            }
                            return Err(EgError::InvalidEncoding(item.name.clone()));
                        },
                    };
                    proof {
                        encode_utf8_decode_utf8(contents@);
                    }
                    let search_matches = match pattern {
                        Some(p) => extractor.find_matches(contents.as_str(), p),
                        None => Vec::new(),
                    };
                    let ghost before = example_views(examples@);
                    let example = Example::ExampleInMemory {
                        filename: item.name.clone(),
                        contents,
                        search_matches,
                    };
                    examples.push(example);
                    assert(example_views(examples@) =~= before.push(example@));
                },
                _ => {
                    assert(!item.is_source());
                },
            }
            i += 1;
        }
        Ok(examples)
    }
}

} // verus!
