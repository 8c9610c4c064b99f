//! Compiled search patterns and the spans they match.

use crate::error::EgError;
use vstd::prelude::*;
use vstd::string::*;
use vstd::utf8::*;

verus! {

/// `regex::Regex`, a compiled pattern, carried as an opaque value.
#[verifier::external_type_specification]
#[verifier::external_body]
pub struct ExRegex(regex::Regex);

/// `regex::Error`, why a pattern did not compile, carried as an opaque value.
#[verifier::external_type_specification]
#[verifier::external_body]
pub struct ExRegexError(regex::Error);

/// A search pattern: its source text together with the program compiled from
/// it. The compiled program is only ever built from `source` (see
/// [`Pattern::new`]), which is what lets contracts speak of a pattern by its
/// source text alone.
pub struct Pattern {
    source: String,
    compiled: regex::Regex,
}

impl View for Pattern {
    type V = Seq<char>;

    closed spec fn view(&self) -> Seq<char> {
        self.source@
    }
}

/// Whether `source` is a pattern that compiles: whether `regex::Regex::new`
/// accepts it.
pub uninterp spec fn regex_accepts(source: Seq<char>) -> bool;

/// The byte spans `(start, end)` at which the pattern with source `pattern`
/// matches in `text`: what `regex::Regex::find_iter` yields, in its order.
pub uninterp spec fn regex_spans(pattern: Seq<char>, text: Seq<char>) -> Seq<(usize, usize)>;

/// Every span lies inside `bytes` with its start not behind its end, both ends
/// fall between scalar values, and every span begins behind the beginning of
/// each earlier one and not before its end.
pub open spec fn spans_fit(spans: Seq<(usize, usize)>, bytes: Seq<u8>) -> bool {
    &&& forall|i: int|
        0 <= i < spans.len() ==> {
            &&& (#[trigger] spans[i]).0 <= spans[i].1 <= bytes.len()
            &&& is_char_boundary(bytes, spans[i].0 as int)
            &&& is_char_boundary(bytes, spans[i].1 as int)
        }
    &&& forall|i: int, j: int|
        0 <= i < j < spans.len() ==> (#[trigger] spans[i]).0 < (#[trigger] spans[j]).0
            && spans[i].1 <= spans[j].0
}

/// Calls `regex::Regex::new`, whose outcome is taken to depend on the source
/// alone.
#[verifier::external_body]
fn regex_compile(source: &str) -> (outcome: Result<regex::Regex, regex::Error>)
    ensures
        outcome is Ok <==> regex_accepts(source@),
{
    regex::Regex::new(source)
}

/// Calls `regex::Error`'s `to_string`. Nothing is claimed of the text.
#[verifier::external_body]
fn regex_error_text(error: &regex::Error) -> (text: String) {
    error.to_string()
}

/// Calls `regex::Regex::find_iter` and collects each match's `start()` and
/// `end()`. The crate documents that the matches are successive and do not
/// overlap, that `start() <= end()`, and that both are byte offsets into the
/// haystack that fall on UTF-8 boundaries; its iterator never yields two
/// matches that start at the same offset. The result is taken to depend on
/// the pattern's source and the haystack alone.
#[verifier::external_body]
fn regex_find_spans(pattern: &Pattern, text: &str) -> (spans: Vec<(usize, usize)>)
    ensures
        spans@ == regex_spans(pattern@, text@),
        spans_fit(spans@, text.spec_bytes()),
{
    pattern.compiled.find_iter(text).map(|m| (m.start(), m.end())).collect()
}

/// Calls `regex::Regex::is_match`, which the crate documents to be true if
/// and only if there is a match anywhere in the haystack: if and only if
/// `find_iter` yields one.
#[verifier::external_body]
fn regex_is_match(pattern: &Pattern, text: &str) -> (r: bool)
    ensures
        r == (regex_spans(pattern@, text@).len() > 0),
{
    pattern.compiled.is_match(text)
}

impl Pattern {
    /// Turns the outcome of compiling `source` into a pattern, or into
    /// `InvalidPattern` where the compiler refused it. It is kept private so
    /// that no pattern can hold a program compiled from another source.
    fn from_compiled(source: &str, outcome: Result<regex::Regex, regex::Error>) -> (r: Result<
        Pattern,
        EgError,
    >)
        ensures
            outcome is Ok <==> r is Ok,
            r matches Ok(p) ==> p@ == source@,
            r matches Err(e) ==> e is InvalidPattern,
    {
        match outcome {
            Ok(compiled) => Ok(Pattern { source: source.to_owned(), compiled }),
            Err(error) => Err(EgError::InvalidPattern(regex_error_text(&error))),
        }
    }

    /// Compiles `source`. A source that the pattern compiler refuses gives
    /// `InvalidPattern`, and nothing else fails.
    pub fn new(source: &str) -> (r: Result<Pattern, EgError>)
        ensures
            r is Ok <==> regex_accepts(source@),
            r matches Ok(p) ==> p@ == source@,
            r matches Err(e) ==> e is InvalidPattern,
    {
        Pattern::from_compiled(source, regex_compile(source))
    }

    /// The text that the pattern was compiled from.
    pub fn source(&self) -> (s: &str)
        ensures
            s@ == self@,
    {
        self.source.as_str()
    }

    /// Whether the pattern matches anywhere in `text`.
    pub fn is_match(&self, text: &str) -> (r: bool)
        ensures
            r == (regex_spans(self@, text@).len() > 0),
    {
        regex_is_match(self, text)
    }

    /// The spans at which the pattern matches in `text`, in the order in
    /// which they start.
    pub fn spans(&self, text: &str) -> (spans: Vec<(usize, usize)>)
        ensures
            spans@ == regex_spans(self@, text@),
            spans_fit(spans@, text.spec_bytes()),
    {
        regex_find_spans(self, text)
    }
}

} // verus!
