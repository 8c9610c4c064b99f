use eg::text::{after_last_slash, bytes_eq, ends_with, segment_text, stands_at, text_eq};

#[test]
fn texts_compare_by_content() {
    assert!(text_eq("file", "file"));
    assert!(!text_eq("file", "files"));
    assert!(!text_eq("file", "fild"));
    assert!(text_eq("", ""));
    assert!(bytes_eq(b"ab", b"ab"));
    assert!(!bytes_eq(b"ab", b"ba"));
}

#[test]
fn words_are_found_where_they_stand() {
    assert!(stands_at(b"abcdef", b"cd", 2));
    assert!(!stands_at(b"abcdef", b"cd", 3));
    assert!(stands_at(b"abcdef", b"", 6));
    assert!(ends_with(b"main.rs", b".rs"));
    assert!(!ends_with(b"main.rs.bak", b".rs"));
    assert!(!ends_with(b"rs", b".rs"));
}

#[test]
fn last_component_begins_behind_the_last_slash() {
    assert_eq!(after_last_slash(b"a/bc/d", 6), 5);
    assert_eq!(after_last_slash(b"a/bc/d", 4), 2);
    assert_eq!(after_last_slash(b"abc", 3), 0);
    assert_eq!(after_last_slash(b"abc/", 4), 4);
    assert_eq!(after_last_slash(b"", 0), 0);
}

#[test]
fn segments_between_ascii_bytes_are_texts() {
    let bytes = "é/ü".as_bytes();
    assert_eq!(segment_text(bytes, 0, 2), "é");
    assert_eq!(segment_text(bytes, 3, 5), "ü");
    assert_eq!(segment_text(bytes, 3, 3), "");
}
