//! Picking the example sources out of a crate archive and locating a
//! pattern's matches in them.

use crate::error::EgError;
use crate::example::{example_views, Example, ExampleView};
use crate::position::{
    clamp_offset, column_at, lemma_position_bounds, lemma_range_at_well_formed, line_at,
    ranges_at, reported, SearchRange, LINE_FEED,
};
use crate::rust::pattern::{regex_spans, Pattern};
use crate::text::{
    after_last_slash, name_start, occurs_at, stands_at, utf8_text, SLASH,
};
use vstd::prelude::*;
use vstd::slice::*;
use vstd::string::*;
use vstd::utf8::*;

verus! {

/// The directory name `examples`, as bytes.
pub open spec fn examples_word() -> Seq<u8> {
    seq![0x65u8, 0x78u8, 0x61u8, 0x6du8, 0x70u8, 0x6cu8, 0x65u8, 0x73u8]
}

/// The file name ending `.rs`, as bytes.
pub open spec fn rust_suffix() -> Seq<u8> {
    seq![0x2eu8, 0x72u8, 0x73u8]
}

/// A component of `path` begins at `start` and is exactly `examples`.
pub open spec fn examples_component_at(path: Seq<u8>, start: int) -> bool {
    &&& occurs_at(path, examples_word(), start)
    &&& start == 0 || path[start - 1] == SLASH
    &&& start + 8 == path.len() || path[start + 8] == SLASH
}

/// Some component of `path` is exactly `examples`.
pub open spec fn has_examples_component(path: Seq<u8>) -> bool {
    exists|start: int| examples_component_at(path, start)
}

/// The byte that alone makes up the component for "this directory".
pub const DOT: u8 = 0x2e;

/// Where the last component ends among the first `n` bytes of `path`:
/// slashes at the end, and components at the end that are a single dot, are
/// passed over, as they name nothing of their own.
pub open spec fn component_end(path: Seq<u8>, n: int) -> int
    decreases n,
{
    if n <= 0 {
        0
    } else if path[n - 1] == SLASH {
        component_end(path, n - 1)
    } else if path[n - 1] == DOT && (n == 1 || path[n - 2] == SLASH) {
        component_end(path, n - 1)
    } else {
        n
    }
}

/// Where the file name of `path` ends.
pub open spec fn file_name_end(path: Seq<u8>) -> int {
    component_end(path, path.len() as int)
}

/// The file name of `path`: its last component, whatever slashes and
/// single-dot components follow it.
pub open spec fn file_name_bytes(path: Seq<u8>) -> Seq<u8> {
    path.subrange(name_start(path, file_name_end(path)), file_name_end(path))
}

/// The file name of `path` is a non-empty stem followed by `.rs`.
pub open spec fn has_rust_extension(path: Seq<u8>) -> bool {
    &&& file_name_bytes(path).len() > 3
    &&& occurs_at(path, rust_suffix(), file_name_end(path) - 3)
}

/// An archive entry is an example source where some component of its path is
/// `examples` and its file name ends in `.rs`.
pub open spec fn is_example_path(path: Seq<u8>) -> bool {
    has_examples_component(path) && has_rust_extension(path)
}

/// Where the archive of `crate_name` at `version` is downloaded from.
pub open spec fn download_url_of(crate_name: Seq<char>, version: Seq<char>) -> Seq<char> {
    "https://static.crates.io/crates/"@ + crate_name + "/"@ + crate_name + "-"@ + version
        + ".crate"@
}

/// The name under which an example is reported: the last component of its
/// path, or `unknown` where that is not UTF-8.
pub open spec fn file_name_of(path: Seq<u8>) -> Seq<char> {
    if valid_utf8(file_name_bytes(path)) {
        decode_utf8(file_name_bytes(path))
    } else {
        "unknown"@
    }
}

/// What a walk over the gzip-compressed tar archive `archive` finds: the
/// paths of the entries that it reaches, in the order in which they are
/// stored, and whether it reaches the archive's end without a fault.
pub uninterp spec fn archive_walk(archive: Seq<u8>) -> (Seq<Seq<u8>>, bool);

/// The paths of the entries of `archive` up to its end or its first fault.
pub open spec fn archive_paths(archive: Seq<u8>) -> Seq<Seq<u8>> {
    archive_walk(archive).0
}

/// The archive can be walked to its end.
pub open spec fn archive_intact(archive: Seq<u8>) -> bool {
    archive_walk(archive).1
}

/// The content of entry number `index` (from 0) of the gzip-compressed tar
/// archive `archive`, or `None` where no such entry can be read.
pub uninterp spec fn archive_entry(archive: Seq<u8>, index: usize) -> Option<Seq<u8>>;

/// Walks `archive` with `tar::Archive::entries` over a
/// `flate2::read::GzDecoder` and collects `Entry::path_bytes` of each entry.
/// The first entry that cannot be read ends the walk; its error's text comes
/// back beside the paths collected before it. The outcome is taken to depend
/// on the bytes alone.
#[verifier::external_body]
fn read_archive_paths(archive: &[u8]) -> (r: (Vec<Vec<u8>>, Option<String>))
    ensures
        r.0@.len() == archive_walk(archive@).0.len(),
        forall|i: int| 0 <= i < r.0@.len() ==> #[trigger] archive_walk(archive@).0[i] == r.0@[i]@,
        r.1 is None <==> archive_walk(archive@).1,
{
    let mut walker = tar::Archive::new(flate2::read::GzDecoder::new(archive));
    let mut paths = Vec::new();
    let entries = match walker.entries() {
        Ok(entries) => entries,
        Err(e) => return (paths, Some(e.to_string())),
    };
    for entry in entries {
        match entry {
            Ok(entry) => paths.push(entry.path_bytes().into_owned()),
            Err(e) => return (paths, Some(e.to_string())),
        }
    }
    (paths, None)
}

/// Walks `archive` as [`read_archive_paths`] does, up to entry number `index`,
/// and reads that entry to its end with `std::io::Read::read_to_end`. A
/// missing or unreadable entry gives the error's text. The outcome is taken to
/// depend on the bytes and the index alone.
#[verifier::external_body]
fn read_archive_entry(archive: &[u8], index: usize) -> (r: Result<Vec<u8>, String>)
    ensures
        match r {
            Ok(data) => archive_entry(archive@, index) == Some(data@),
            Err(_) => archive_entry(archive@, index) is None,
        },
{
    let mut walker = tar::Archive::new(flate2::read::GzDecoder::new(archive));
    let mut data = Vec::new();
    let missing = std::io::Error::from(std::io::ErrorKind::UnexpectedEof);
    let mut entry = walker.entries().map_err(|e| e.to_string())?.nth(index).unwrap_or(
        Err(missing),
    ).map_err(|e| e.to_string())?;
    std::io::Read::read_to_end(&mut entry, &mut data).map_err(|e| e.to_string())?;
    Ok(data)
}

/// Why an archive yields no examples.
pub enum ExtractFault {
    /// The archive or a qualifying entry cannot be read.
    Corrupt,
    /// The qualifying entry with this path is not UTF-8 text.
    NotText(Seq<u8>),
}

/// The pattern's source, where there is a pattern.
pub open spec fn pattern_view(pattern: Option<&Pattern>) -> Option<Seq<char>> {
    match pattern {
        Some(p) => Some(p@),
        None => None,
    }
}

/// The matches of the pattern with source `pattern` in `text`: the spans at
/// which it matches, each reported as a range.
pub open spec fn matches_of(text: Seq<char>, pattern: Seq<char>) -> Seq<SearchRange> {
    ranges_at(encode_utf8(text), regex_spans(pattern, text))
}

/// Matching is a function of the text and the pattern: the same text and the
/// same pattern give the same matches in the same order, however often they
/// are asked for.
pub proof fn lemma_matches_deterministic(
    text: Seq<char>,
    pattern: Seq<char>,
    again_text: Seq<char>,
    again_pattern: Seq<char>,
)
    requires
        text == again_text,
        pattern == again_pattern,
    ensures
        matches_of(text, pattern) == matches_of(again_text, again_pattern),
{
}

/// The matches reported for the UTF-8 text `data`: those of the pattern, or
/// none where there is no pattern.
pub open spec fn matches_in(data: Seq<u8>, pattern: Option<Seq<char>>) -> Seq<SearchRange> {
    match pattern {
        Some(p) => ranges_at(data, regex_spans(p, decode_utf8(data))),
        None => Seq::empty(),
    }
}

/// The example that an entry with path `path` and content `data` becomes.
pub open spec fn in_memory_example(
    path: Seq<u8>,
    data: Seq<u8>,
    pattern: Option<Seq<char>>,
) -> ExampleView {
    ExampleView::InMemory {
        filename: file_name_of(path),
        contents: decode_utf8(data),
        search_matches: matches_in(data, pattern),
    }
}

/// What the first `n` entries of `archive` yield: the examples among them in
/// stored order, or the fault of the first qualifying entry that has one.
pub open spec fn extracted_upto(
    paths: Seq<Seq<u8>>,
    archive: Seq<u8>,
    pattern: Option<Seq<char>>,
    n: int,
) -> Result<Seq<ExampleView>, ExtractFault>
    decreases n,
{
    if n <= 0 {
        Ok(Seq::empty())
    } else {
        match extracted_upto(paths, archive, pattern, n - 1) {
            Err(fault) => Err(fault),
            Ok(found) => if !is_example_path(paths[n - 1]) {
                Ok(found)
            } else {
                match archive_entry(archive, (n - 1) as usize) {
                    None => Err(ExtractFault::Corrupt),
                    Some(data) => if !valid_utf8(data) {
                        Err(ExtractFault::NotText(paths[n - 1]))
                    } else {
                        Ok(found.push(in_memory_example(paths[n - 1], data, pattern)))
                    },
                }
            },
        }
    }
}

/// A fault among the first `n` entries is the fault of every longer prefix.
pub proof fn lemma_fault_persists(
    paths: Seq<Seq<u8>>,
    archive: Seq<u8>,
    pattern: Option<Seq<char>>,
    n: int,
    m: int,
)
    requires
        n <= m,
        extracted_upto(paths, archive, pattern, n) is Err,
    ensures
        extracted_upto(paths, archive, pattern, m) == extracted_upto(paths, archive, pattern, n),
    decreases m - n,
{
    if n < m {
        lemma_fault_persists(paths, archive, pattern, n, m - 1);
    }
}

/// What `archive` yields: its examples in stored order, or its first fault
/// in stored order, be it the fault of a qualifying entry or the fault that
/// ends the walk.
pub open spec fn extracted(archive: Seq<u8>, pattern: Option<Seq<char>>) -> Result<
    Seq<ExampleView>,
    ExtractFault,
> {
    let paths = archive_paths(archive);
    match extracted_upto(paths, archive, pattern, paths.len() as int) {
        Err(fault) => Err(fault),
        Ok(found) => if archive_intact(archive) {
            Ok(found)
        } else {
            Err(ExtractFault::Corrupt)
        },
    }
}

/// The outcome `r` reports exactly what `expected` describes. A corrupt
/// archive is reported with the reader's own words, an entry that is no text
/// with its file name.
pub open spec fn reports(
    r: Result<Vec<Example>, EgError>,
    expected: Result<Seq<ExampleView>, ExtractFault>,
) -> bool {
    match expected {
        Ok(found) => r matches Ok(examples) && example_views(examples@) == found,
        Err(ExtractFault::Corrupt) => r matches Err(EgError::ExtractionFailed(_)),
        Err(ExtractFault::NotText(path)) => r matches Err(EgError::InvalidEncoding(name))
            && name@ == file_name_of(path),
    }
}

/// Whether some component of `path` is exactly `examples`.
pub fn has_examples_dir(path: &[u8]) -> (r: bool)
    ensures
        r == has_examples_component(path@),
{
    let word: Vec<u8> = vec![0x65, 0x78, 0x61, 0x6d, 0x70, 0x6c, 0x65, 0x73];
    assert(word@ =~= examples_word());
    let n: usize = path.len();
    if n < 8 {
        return false;
    }
    let mut i: usize = 0;
    while i <= n - 8
        invariant
            n == path.len(),
            n >= 8,
            i <= n - 8 + 1,
            word@ == examples_word(),
            forall|s: int| 0 <= s < i ==> !examples_component_at(path@, s),
        decreases n - i,
    {
        if (i == 0 || path[i - 1] == SLASH) && (i + 8 == n || path[i + 8] == SLASH) && stands_at(
            path,
            word.as_slice(),
            i,
        ) {
            assert(examples_component_at(path@, i as int));
            return true;
        }
        i += 1;
    }
    false
}

/// Where the file name of `path` ends.
pub fn last_component_end(path: &[u8]) -> (end: usize)
    ensures
        end == file_name_end(path@),
        end <= path.len(),
{
    let mut end: usize = path.len();
    while end > 0 && (path[end - 1] == SLASH || (path[end - 1] == DOT && (end == 1 || path[end
        - 2] == SLASH)))
        invariant
            end <= path.len(),
            component_end(path@, end as int) == file_name_end(path@),
        decreases end,
    {
        end -= 1;
    }
    end
}

/// Whether the file name of `path` ends in `.rs` behind a non-empty stem.
pub fn has_rust_suffix(path: &[u8]) -> (r: bool)
    ensures
        r == has_rust_extension(path@),
{
    let suffix: Vec<u8> = vec![0x2e, 0x72, 0x73];
    assert(suffix@ =~= rust_suffix());
    let end: usize = last_component_end(path);
    let start: usize = after_last_slash(path, end);
    end - start > 3 && stands_at(path, suffix.as_slice(), end - 3)
}

/// Whether the archive path `path` names an example source.
pub fn is_example_path_bytes(path: &[u8]) -> (r: bool)
    ensures
        r == is_example_path(path@),
{
    has_examples_dir(path) && has_rust_suffix(path)
}

/// The name under which the entry with path `path` is reported.
pub fn file_name_text(path: &[u8]) -> (name: String)
    ensures
        name@ == file_name_of(path@),
{
    let end: usize = last_component_end(path);
    let start: usize = after_last_slash(path, end);
    let bytes = slice_to_vec(slice_subrange(path, start, end));
    match utf8_text(bytes) {
        Some(name) => {
            proof {
                encode_utf8_decode_utf8(name@);
            }
            name
        },
        None => "unknown".to_owned(),
    }
}

/// Finds the example sources of a crate archive.
pub struct CrateExtractor;

impl CrateExtractor {
    pub fn new() -> (r: Self) {
        CrateExtractor
    }

    /// Whether `path`, as an archive stores it, names an example source: some
    /// component is `examples` and the file name, which is the last component
    /// whatever slashes follow it, ends in `.rs`.
    pub fn is_example_file(&self, path: &str) -> (r: bool)
        ensures
            r == is_example_path(path.spec_bytes()),
    {
        is_example_path_bytes(path.as_bytes())
    }

    /// Where the archive of `crate_name` at `version` is downloaded from.
    pub fn download_url(&self, crate_name: &str, version: &str) -> (url: String)
        ensures
            url@ == download_url_of(crate_name@, version@),
    {
        let mut url = "https://static.crates.io/crates/".to_owned();
        url.append(crate_name);
        url.append("/");
        url.append(crate_name);
        url.append("-");
        url.append(version);
        url.append(".crate");
        url
    }

    /// The example that the entry with path `path` and text `contents`
    /// becomes, with the pattern's matches located in it.
    pub fn example_from_entry(&self, path: &[u8], contents: String, pattern: Option<&Pattern>) -> (r:
        Example)
        ensures
            r@ == in_memory_example(path@, encode_utf8(contents@), pattern_view(pattern)),
    {
        proof {
            encode_utf8_decode_utf8(contents@);
        }
        let search_matches = match pattern {
            Some(p) => self.find_matches(contents.as_str(), p),
            None => Vec::new(),
        };
        Example::ExampleInMemory { filename: file_name_text(path), contents, search_matches }
    }

    /// The examples of the gzip-compressed tar archive `archive`, in stored
    /// order. Entries that are no example sources are passed over unread. A
    /// qualifying entry that cannot be read, and an archive that cannot be
    /// walked to its end, is `ExtractionFailed`; a qualifying entry that is
    /// not UTF-8 text is `InvalidEncoding`; the first fault in stored order
    /// decides.
    pub fn extract_examples(&self, archive: &[u8], pattern: Option<&Pattern>) -> (r: Result<
        Vec<Example>,
        EgError,
    >)
        ensures
            reports(r, extracted(archive@, pattern_view(pattern))),
    {
        let (paths, fault) = read_archive_paths(archive);
        let ghost listed = archive_paths(archive@);
        let ghost wanted = pattern_view(pattern);
        let mut examples: Vec<Example> = Vec::new();
        let mut i: usize = 0;
        assert(example_views(examples@) =~= Seq::empty());
        while i < paths.len()
            invariant
                i <= paths.len(),
                listed.len() == paths.len(),
                archive_paths(archive@) == listed,
                forall|k: int| 0 <= k < paths.len() ==> #[trigger] listed[k] == paths[k]@,
                wanted == pattern_view(pattern),
                extracted_upto(listed, archive@, wanted, i as int) == Ok::<
                    Seq<ExampleView>,
                    ExtractFault,
                >(example_views(examples@)),
            decreases paths.len() - i,
        {
            let path = paths[i].as_slice();
            assert(path@ == listed[i as int]);
            if is_example_path_bytes(path) {
                let data = match read_archive_entry(archive, i) {
                    Ok(data) => data,
                    Err(why) => {
                        proof {
                            lemma_fault_persists(listed, archive@, wanted, i + 1, listed.len() as int);
                        }
                        return Err(EgError::ExtractionFailed(why));
                    },
                };
                let contents = match utf8_text(data) {
                    Some(text) => text,
                    None => {
                        proof {
                            lemma_fault_persists(listed, archive@, wanted, i + 1, listed.len() as int);
                        }
                        return Err(EgError::InvalidEncoding(file_name_text(path)));
                    },
                };
                let ghost before = example_views(examples@);
                let example = self.example_from_entry(path, contents, pattern);
                examples.push(example);
                assert(example_views(examples@) =~= before.push(example@));
            }
            i += 1;
        }
        match fault {
            Some(why) => Err(EgError::ExtractionFailed(why)),
            None => Ok(examples),
        }
    }

    /// The examples of a cached archive whose bytes are `archive`.
    pub fn extract_examples_from_file(&self, archive: &[u8], pattern: Option<&Pattern>) -> (r:
        Result<Vec<Example>, EgError>)
        ensures
            reports(r, extracted(archive@, pattern_view(pattern))),
    {
        self.extract_examples(archive, pattern)
    }

    /// The examples of a downloaded archive: `status` is the status of the
    /// download and `body` what it delivered. A status outside 200..=299 is
    /// `DownloadFailed` with that status.
    pub fn extract_examples_from_download(
        &self,
        status: u16,
        body: &[u8],
        pattern: Option<&Pattern>,
    ) -> (r: Result<Vec<Example>, EgError>)
        ensures
            200 <= status <= 299 ==> reports(r, extracted(body@, pattern_view(pattern))),
            !(200 <= status <= 299) ==> r == Err::<Vec<Example>, EgError>(
                EgError::DownloadFailed(status),
            ),
    {
        if status < 200 || status > 299 {
            return Err(EgError::DownloadFailed(status));
        }
        self.extract_examples(body, pattern)
    }

    /// The 1-based line and column of byte offset `byte_pos` in `content`. An
    /// offset past the end counts as the end.
    pub fn byte_to_line_col(&self, content: &str, byte_pos: usize) -> (r: (usize, usize))
        ensures
            r.0 == reported(
                line_at(content.spec_bytes(), clamp_offset(content.spec_bytes(), byte_pos as int)),
            ),
            r.1 == reported(
                column_at(content.spec_bytes(), clamp_offset(content.spec_bytes(), byte_pos as int)),
            ),
    {
        let bytes = content.as_bytes();
        let n: usize = bytes.len();
        let limit: usize = if byte_pos < n { byte_pos } else { n };
        let mut line: usize = 1;
        let mut col: usize = 1;
        let mut i: usize = 0;
        proof {
            encode_utf8_valid_utf8(content@);
        }
        while i < limit
            invariant
                i <= limit <= n,
                n == bytes@.len(),
                valid_utf8(bytes@),
                line == reported(line_at(bytes@, i as int)),
                col == reported(column_at(bytes@, i as int)),
            decreases limit - i,
        {
            let b: u8 = bytes[i];
            proof {
                is_char_boundary_iff_not_is_continuation_byte(bytes@, i as int);
                lemma_position_bounds(bytes@, i as int);
            }
            if b == LINE_FEED {
                if line < usize::MAX {
                    line += 1;
                }
                col = 1;
            } else if !(0x80 <= b && b <= 0xbf) {
                if col < usize::MAX {
                    col += 1;
                }
            }
            i += 1;
        }
        (line, col)
    }

    /// Reports each span of `spans` as a range of `content`, one for one.
    pub fn locate_spans(&self, content: &str, spans: &Vec<(usize, usize)>) -> (ranges: Vec<
        SearchRange,
    >)
        ensures
            ranges@ == ranges_at(content.spec_bytes(), spans@),
    {
        let ghost text = content.spec_bytes();
        let mut ranges: Vec<SearchRange> = Vec::new();
        let mut k: usize = 0;
        while k < spans.len()
            invariant
                k <= spans.len(),
                text == content.spec_bytes(),
                ranges@ == ranges_at(text, spans@.take(k as int)),
            decreases spans.len() - k,
        {
            let (start, end) = spans[k];
            let (line_start, column_start) = self.byte_to_line_col(content, start);
            let (line_end, column_end) = self.byte_to_line_col(content, end);
            ranges.push(
                SearchRange {
                    byte_start: start,
                    line_start,
                    column_start,
                    byte_end: end,
                    line_end,
                    column_end,
                },
            );
            k += 1;
            assert(ranges@ =~= ranges_at(text, spans@.take(k as int)));
        }
        assert(spans@.take(k as int) =~= spans@);
        ranges
    }

    /// Every occurrence of `pattern` in `content`, in the order in which they
    /// start, each with the line and column of both its ends.
    pub fn find_matches(&self, content: &str, pattern: &Pattern) -> (ranges: Vec<SearchRange>)
        ensures
            ranges@ == matches_of(content@, pattern@),
            forall|i: int| 0 <= i < ranges.len() ==> (#[trigger] ranges[i]).well_formed(),
            forall|i: int| 0 <= i < ranges.len() ==> (#[trigger] ranges[i]).cuts(content.spec_bytes()),
            forall|i: int, j: int|
                0 <= i < j < ranges.len() ==> (#[trigger] ranges[i]).byte_start < (
                #[trigger] ranges[j]).byte_start && ranges[i].byte_end <= ranges[j].byte_start,
    {
        let spans = pattern.spans(content);
        let ranges = self.locate_spans(content, &spans);
        proof {
            assert forall|i: int| 0 <= i < ranges.len() implies (#[trigger] ranges[i]).well_formed()
                && ranges[i].cuts(content.spec_bytes()) by {
                lemma_range_at_well_formed(content.spec_bytes(), spans@[i].0, spans@[i].1);
            }
        }
        ranges
    }
}

} // verus!
