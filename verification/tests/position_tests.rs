use eg::rust::{CrateExtractor, Pattern};
use eg::SearchRange;

#[test]
fn line_and_column_of_ascii_offsets() {
    let extractor = CrateExtractor::new();
    let text = "ab\ncd\n";
    assert_eq!(extractor.byte_to_line_col(text, 0), (1, 1));
    assert_eq!(extractor.byte_to_line_col(text, 1), (1, 2));
    assert_eq!(extractor.byte_to_line_col(text, 2), (1, 3));
    assert_eq!(extractor.byte_to_line_col(text, 3), (2, 1));
    assert_eq!(extractor.byte_to_line_col(text, 5), (2, 3));
    assert_eq!(extractor.byte_to_line_col(text, 6), (3, 1));
}

#[test]
fn columns_count_scalar_values_not_bytes() {
    let extractor = CrateExtractor::new();
    // h(0) é(1..3) l(3) l(4) o(5) \n(6) w(7) ö(8..10) r(10) l(11) d(12)
    let text = "héllo\nwörld";
    assert_eq!(extractor.byte_to_line_col(text, 1), (1, 2));
    assert_eq!(extractor.byte_to_line_col(text, 3), (1, 3));
    assert_eq!(extractor.byte_to_line_col(text, 7), (2, 1));
    assert_eq!(extractor.byte_to_line_col(text, 10), (2, 3));
    assert_eq!(extractor.byte_to_line_col(text, 13), (2, 6));
}

#[test]
fn offset_inside_a_scalar_value_counts_the_scalar_before_it() {
    let extractor = CrateExtractor::new();
    assert_eq!(extractor.byte_to_line_col("é!", 1), (1, 2));
    assert_eq!(extractor.byte_to_line_col("é!", 2), (1, 2));
}

#[test]
fn offset_past_the_end_counts_as_the_end() {
    let extractor = CrateExtractor::new();
    assert_eq!(extractor.byte_to_line_col("ab\nc", 100), (2, 2));
    assert_eq!(extractor.byte_to_line_col("", 0), (1, 1));
    assert_eq!(extractor.byte_to_line_col("", 7), (1, 1));
}

#[test]
fn locate_spans_reports_each_span() {
    let extractor = CrateExtractor::new();
    let ranges = extractor.locate_spans("one\ntwo\n", &vec![(0, 3), (4, 7), (8, 8)]);
    assert_eq!(
        ranges,
        vec![
            SearchRange {
                byte_start: 0,
                line_start: 1,
                column_start: 1,
                byte_end: 3,
                line_end: 1,
                column_end: 4,
            },
            SearchRange {
                byte_start: 4,
                line_start: 2,
                column_start: 1,
                byte_end: 7,
                line_end: 2,
                column_end: 4,
            },
            SearchRange {
                byte_start: 8,
                line_start: 3,
                column_start: 1,
                byte_end: 8,
                line_end: 3,
                column_end: 1,
            },
        ]
    );
}

#[test]
fn find_matches_locates_the_word() {
    let extractor = CrateExtractor::new();
    let pattern = Pattern::new("derive").unwrap();
    let ranges = extractor.find_matches("fn main() { derive(); }", &pattern);
    assert_eq!(
        ranges,
        vec![SearchRange {
            byte_start: 12,
            line_start: 1,
            column_start: 13,
            byte_end: 18,
            line_end: 1,
            column_end: 19,
        }]
    );
}

#[test]
fn find_matches_yields_matches_in_starting_order_without_overlap() {
    let extractor = CrateExtractor::new();
    let pattern = Pattern::new("aa").unwrap();
    let ranges = extractor.find_matches("aaaa\naaa", &pattern);
    let spans: Vec<(usize, usize)> = ranges.iter().map(|r| (r.byte_start, r.byte_end)).collect();
    assert_eq!(spans, vec![(0, 2), (2, 4), (5, 7)]);
    assert_eq!((ranges[2].line_start, ranges[2].column_start), (2, 1));
    assert_eq!((ranges[2].line_end, ranges[2].column_end), (2, 3));
}

#[test]
fn matches_start_at_strictly_increasing_offsets() {
    let extractor = CrateExtractor::new();
    for source in ["", "x*", r"\b", "a|", "é?"] {
        let pattern = Pattern::new(source).unwrap();
        let ranges = extractor.find_matches("xxaé x\nxa", &pattern);
        for pair in ranges.windows(2) {
            assert!(pair[0].byte_start < pair[1].byte_start, "pattern {:?}", source);
            assert!(pair[0].byte_end <= pair[1].byte_start, "pattern {:?}", source);
        }
    }
    let empty = Pattern::new("").unwrap();
    let spans: Vec<(usize, usize)> = empty.spans("ab");
    assert_eq!(spans, vec![(0, 0), (1, 1), (2, 2)]);
}

#[test]
fn find_matches_is_deterministic() {
    let extractor = CrateExtractor::new();
    let pattern = Pattern::new(r"\w+é").unwrap();
    let text = "café olé\nrésumé";
    let first = extractor.find_matches(text, &pattern);
    let second = extractor.find_matches(text, &pattern);
    assert_eq!(first, second);
    assert_eq!(first.len(), 3);
}

#[test]
fn match_start_never_lies_behind_its_end() {
    let extractor = CrateExtractor::new();
    let pattern = Pattern::new(r"b\nc|x*").unwrap();
    for range in extractor.find_matches("ab\ncd\nxx", &pattern) {
        assert!(range.byte_start <= range.byte_end);
        assert!(
            (range.line_start, range.column_start) <= (range.line_end, range.column_end)
        );
    }
    let across = Pattern::new(r"b\nc").unwrap();
    let ranges = extractor.find_matches("ab\ncd", &across);
    assert_eq!(ranges.len(), 1);
    assert_eq!((ranges[0].line_start, ranges[0].column_start), (1, 2));
    assert_eq!((ranges[0].line_end, ranges[0].column_end), (2, 2));
}

#[test]
fn pattern_keeps_its_source() {
    let pattern = Pattern::new(r"a+b").unwrap();
    assert_eq!(pattern.source(), r"a+b");
    assert_eq!(pattern.spans("xaab ab"), vec![(1, 4), (5, 7)]);
}

#[test]
fn malformed_pattern_is_invalid_pattern() {
    assert!(matches!(Pattern::new("foo(bar"), Err(eg::EgError::InvalidPattern(_))));
}
