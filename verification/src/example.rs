//! Example sources and the result of a search.

use crate::lines::texts_of;
use crate::position::SearchRange;
use vstd::prelude::*;

verus! {

/// A source file found by a search, with the matches located in it.
#[derive(Debug, Clone, PartialEq, Eq)]
pub enum Example {
    /// A file of a checkout on disk; its text is read by whoever needs it.
    ExampleOnDisk { path: String, search_matches: Vec<SearchRange> },
    /// A file whose text was taken from an archive or a repository listing.
    ExampleInMemory { filename: String, contents: String, search_matches: Vec<SearchRange> },
}

/// What an [`Example`] holds, as mathematical values.
pub enum ExampleView {
    OnDisk { path: Seq<char>, search_matches: Seq<SearchRange> },
    InMemory { filename: Seq<char>, contents: Seq<char>, search_matches: Seq<SearchRange> },
}

impl ExampleView {
    /// The matches located in the example, whichever way it is held.
    pub open spec fn matches(self) -> Seq<SearchRange> {
        match self {
            ExampleView::OnDisk { search_matches, .. } => search_matches,
            ExampleView::InMemory { search_matches, .. } => search_matches,
        }
    }
}

impl View for Example {
    type V = ExampleView;

    open spec fn view(&self) -> ExampleView {
        match self {
            Example::ExampleOnDisk { path, search_matches } => ExampleView::OnDisk {
                path: path@,
                search_matches: search_matches@,
            },
            Example::ExampleInMemory { filename, contents, search_matches } => ExampleView::InMemory {
                filename: filename@,
                contents: contents@,
                search_matches: search_matches@,
            },
        }
    }
}

impl Example {
    /// The matches located in this example.
    pub fn search_matches(&self) -> (r: &[SearchRange])
        ensures
            r@ == self@.matches(),
    {
        match self {
            Example::ExampleOnDisk { search_matches, .. } => search_matches.as_slice(),
            Example::ExampleInMemory { search_matches, .. } => search_matches.as_slice(),
        }
    }
}

/// A line that a pattern matches, with the lines around it.
#[derive(Debug, Clone, PartialEq, Eq)]
pub struct Match {
    /// The file that holds the line.
    pub file_path: String,
    /// The 1-based number of the line.
    pub line_number: usize,
    /// The line.
    pub line_content: String,
    /// The lines before it, nearest last.
    pub context_before: Vec<String>,
    /// The lines after it, nearest first.
    pub context_after: Vec<String>,
}

/// What a [`Match`] holds, as mathematical values.
pub struct MatchView {
    pub file_path: Seq<char>,
    pub line_number: usize,
    pub line_content: Seq<char>,
    pub context_before: Seq<Seq<char>>,
    pub context_after: Seq<Seq<char>>,
}

impl View for Match {
    type V = MatchView;

    open spec fn view(&self) -> MatchView {
        MatchView {
            file_path: self.file_path@,
            line_number: self.line_number,
            line_content: self.line_content@,
            context_before: texts_of(self.context_before@),
            context_after: texts_of(self.context_after@),
        }
    }
}

/// The views of a sequence of matches, in their order.
pub open spec fn match_views(matches: Seq<Match>) -> Seq<MatchView> {
    Seq::new(matches.len(), |i: int| matches[i]@)
}

/// The views of a sequence of examples, in their order.
pub open spec fn example_views(examples: Seq<Example>) -> Seq<ExampleView> {
    Seq::new(examples.len(), |i: int| examples[i]@)
}

/// How many of the first `n` examples hold at least one match.
pub open spec fn count_matched(examples: Seq<ExampleView>, n: int) -> int
    decreases n,
{
    if n <= 0 {
        0
    } else if examples[n - 1].matches().len() > 0 {
        count_matched(examples, n - 1) + 1
    } else {
        count_matched(examples, n - 1)
    }
}

/// What a search found: the version searched, the examples considered in the
/// order in which they were found, and how many there are and how many match.
#[derive(Debug, Clone, PartialEq, Eq)]
pub struct SearchResult {
    pub version: String,
    pub total_examples: usize,
    pub matched_examples: usize,
    pub examples: Vec<Example>,
}

/// Of `n` examples at most `n` hold a match.
pub proof fn lemma_count_matched_bounds(examples: Seq<ExampleView>, n: int)
    requires
        0 <= n,
    ensures
        0 <= count_matched(examples, n) <= n,
    decreases n,
{
    if n > 0 {
        lemma_count_matched_bounds(examples, n - 1);
    }
}

impl SearchResult {
    /// The counts agree with the examples: all of them are counted, and the
    /// matched ones are those that hold at least one match. Without a
    /// pattern no example holds a match, and none is counted as matched.
    pub open spec fn counts_agree(&self) -> bool {
        &&& self.total_examples == self.examples.len()
        &&& self.matched_examples == count_matched(
            example_views(self.examples@),
            self.examples.len() as int,
        )
    }

    /// Gathers the examples of one search into its result.
    pub fn new(version: String, examples: Vec<Example>) -> (r: SearchResult)
        ensures
            r.version == version,
            r.examples == examples,
            r.counts_agree(),
            r.matched_examples <= r.total_examples,
    {
        let total: usize = examples.len();
        let mut matched: usize = 0;
        let mut i: usize = 0;
        while i < total
            invariant
                i <= total,
                total == examples.len(),
                matched <= i,
                matched == count_matched(example_views(examples@), i as int),
            decreases total - i,
        {
            if examples[i].search_matches().len() > 0 {
                matched += 1;
            }
            i += 1;
        }
        SearchResult { version, total_examples: total, matched_examples: matched, examples }
    }
}

} // verus!
