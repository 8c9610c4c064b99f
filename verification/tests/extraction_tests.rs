use eg::rust::cache::CacheManager;
use eg::rust::{CrateExtractor, Pattern, RustCrateSearch, SearchAction, SearchEvent};
use eg::{Eg, EgError, Example, SearchRange, SearchResult};

fn archive_of(files: &[(&str, &[u8])]) -> Vec<u8> {
    let encoder = flate2::write::GzEncoder::new(Vec::new(), flate2::Compression::default());
    let mut builder = tar::Builder::new(encoder);
    for (path, data) in files {
        let mut header = tar::Header::new_gnu();
        header.set_size(data.len() as u64);
        header.set_mode(0o644);
        header.set_cksum();
        builder.append_data(&mut header, path, *data).unwrap();
    }
    builder.into_inner().unwrap().finish().unwrap()
}

fn derive_range() -> SearchRange {
    SearchRange {
        byte_start: 12,
        line_start: 1,
        column_start: 13,
        byte_end: 18,
        line_end: 1,
        column_end: 19,
    }
}

fn basic_example() -> Example {
    Example::ExampleInMemory {
        filename: "basic.rs".to_string(),
        contents: "fn main() { derive(); }".to_string(),
        search_matches: vec![derive_range()],
    }
}

#[test]
fn example_paths_need_an_examples_component_and_a_rust_file_name() {
    let extractor = CrateExtractor::new();
    assert!(extractor.is_example_file("examples/basic.rs"));
    assert!(extractor.is_example_file("demo-1.0.0/examples/basic.rs"));
    assert!(extractor.is_example_file("demo-1.0.0/examples/nested/deep.rs"));
    assert!(!extractor.is_example_file("demo-1.0.0/src/lib.rs"));
    assert!(!extractor.is_example_file("demo-1.0.0/examples/README.md"));
    assert!(!extractor.is_example_file("demo-1.0.0/myexamples/basic.rs"));
    assert!(!extractor.is_example_file("demo-1.0.0/examples2/basic.rs"));
    assert!(!extractor.is_example_file("demo-1.0.0/examples/.rs"));
    assert!(!extractor.is_example_file("demo-1.0.0/examples/basic.rs.bak"));
    assert!(!extractor.is_example_file("examples.rs"));
    assert!(!extractor.is_example_file(""));
}

#[test]
fn file_name_is_the_last_component_whatever_slashes_follow() {
    let extractor = CrateExtractor::new();
    assert!(extractor.is_example_file("demo/examples/a.rs/"));
    assert!(extractor.is_example_file("demo/examples/a.rs//"));
    assert!(extractor.is_example_file("demo/examples/a.rs/."));
    assert!(extractor.is_example_file("demo/examples/a.rs/./"));
    assert!(extractor.is_example_file("./examples/./a.rs"));
    assert!(!extractor.is_example_file("demo/examples/a.rs/.."));
    assert!(!extractor.is_example_file("demo/examples/a.rs/b"));
    assert!(!extractor.is_example_file("demo/examples/.rs/"));
    assert!(!extractor.is_example_file("examples/"));
    assert!(!extractor.is_example_file("."));
    assert!(!extractor.is_example_file("/"));
}

#[test]
fn example_paths_are_told_as_the_standard_library_tells_them() {
    let extractor = CrateExtractor::new();
    let samples = [
        "",
        ".",
        "..",
        "/",
        "a.rs",
        "examples",
        "examples/",
        "examples/a.rs",
        "examples/a.rs/",
        "examples/a.rs//.",
        "examples/a.rs/..",
        "examples/.rs",
        "examples/..rs",
        "examples/a.rs.",
        "examples/a.RS",
        "examples/a.rs/b.txt",
        "examples//a.rs",
        "examples/./a.rs",
        "./examples/a.rs",
        "/examples/a.rs",
        "x/examples.rs",
        "x/examples.rs/a.rs",
        "x/myexamples/a.rs",
        "x/examples2/a.rs",
        "x/examples/sub/dir/é.rs",
        "x/src/examples",
        "x/src/examples/.",
        "x/./examples/./y.rs/./",
        "rs",
        ".rs",
        "examples/rs",
    ];
    for sample in samples {
        let path = std::path::Path::new(sample);
        let expected = path.components().any(|c| c.as_os_str() == "examples")
            && path.extension().map_or(false, |e| e == "rs");
        assert_eq!(extractor.is_example_file(sample), expected, "path {:?}", sample);
    }
}

#[test]
fn directory_entry_named_like_a_source_is_reported_by_its_name() {
    let extractor = CrateExtractor::new();
    let archive = archive_of(&[("demo/examples/odd.rs/", b"")]);
    assert_eq!(
        extractor.extract_examples(&archive, None),
        Ok(vec![Example::ExampleInMemory {
            filename: "odd.rs".to_string(),
            contents: "".to_string(),
            search_matches: Vec::new(),
        }])
    );
}

#[test]
fn first_fault_in_stored_order_decides() {
    let extractor = CrateExtractor::new();
    let mut noise = Vec::new();
    let mut state: u32 = 12345;
    for _ in 0..200_000 {
        state = state.wrapping_mul(1664525).wrapping_add(1013904223);
        noise.push((state >> 24) as u8);
    }
    let mut bad_first = archive_of(&[
        ("demo/examples/bad.rs", &[0xff, 0xfe]),
        ("demo/assets/noise.bin", &noise),
        ("demo/examples/late.rs", b"fn late() {}"),
    ]);
    bad_first.truncate(bad_first.len() / 2);
    assert_eq!(
        extractor.extract_examples(&bad_first, None),
        Err(EgError::InvalidEncoding("bad.rs".to_string()))
    );
    let mut good_first = archive_of(&[
        ("demo/examples/good.rs", b"fn good() {}"),
        ("demo/assets/noise.bin", &noise),
        ("demo/examples/late.rs", b"fn late() {}"),
    ]);
    good_first.truncate(good_first.len() / 2);
    assert!(matches!(
        extractor.extract_examples(&good_first, None),
        Err(EgError::ExtractionFailed(_))
    ));
}

#[test]
fn a_file_named_examples_has_no_rust_extension() {
    let extractor = CrateExtractor::new();
    assert!(!extractor.is_example_file("a/examples"));
    assert!(extractor.is_example_file("examples/examples.rs"));
}

#[test]
fn archive_with_one_example_yields_one_match_on_line_one() {
    let extractor = CrateExtractor::new();
    let archive = archive_of(&[
        ("demo-1.0.0/Cargo.toml", b"[package]\nname = \"demo\"\n"),
        ("demo-1.0.0/examples/basic.rs", b"fn main() { derive(); }"),
        ("demo-1.0.0/src/lib.rs", b"pub fn derive() {}\n"),
    ]);
    let pattern = Pattern::new("derive").unwrap();
    let examples = extractor.extract_examples(&archive, Some(&pattern)).unwrap();
    assert_eq!(examples, vec![basic_example()]);
    let matches = examples[0].search_matches();
    assert_eq!(matches.len(), 1);
    assert_eq!(matches[0].line_start, 1);
    assert_eq!(matches[0].line_end, 1);
    let contents = "fn main() { derive(); }";
    assert_eq!(&contents[matches[0].byte_start..matches[0].byte_end], "derive");
    assert_eq!(matches[0].column_end - matches[0].column_start, 6);
}

#[test]
fn without_a_pattern_examples_still_count_and_hold_no_match() {
    let extractor = CrateExtractor::new();
    let archive = archive_of(&[
        ("demo-1.0.0/examples/b.rs", b"fn b() {}"),
        ("demo-1.0.0/examples/a.rs", b"fn a() {}"),
    ]);
    let examples = extractor.extract_examples(&archive, None).unwrap();
    assert_eq!(
        examples,
        vec![
            Example::ExampleInMemory {
                filename: "b.rs".to_string(),
                contents: "fn b() {}".to_string(),
                search_matches: Vec::new(),
            },
            Example::ExampleInMemory {
                filename: "a.rs".to_string(),
                contents: "fn a() {}".to_string(),
                search_matches: Vec::new(),
            },
        ]
    );
}

#[test]
fn archive_without_examples_yields_nothing() {
    let extractor = CrateExtractor::new();
    let archive = archive_of(&[("demo-1.0.0/src/lib.rs", b"pub fn derive() {}\n")]);
    let pattern = Pattern::new("derive").unwrap();
    assert_eq!(extractor.extract_examples(&archive, Some(&pattern)), Ok(Vec::new()));
    assert_eq!(extractor.extract_examples(&archive_of(&[]), None), Ok(Vec::new()));
}

#[test]
fn corrupt_archive_is_extraction_failed() {
    let extractor = CrateExtractor::new();
    assert!(matches!(
        extractor.extract_examples(b"this is no gzip stream", None),
        Err(EgError::ExtractionFailed(_))
    ));
    let mut truncated = archive_of(&[("demo/examples/a.rs", &[b'x'; 4096])]);
    truncated.truncate(truncated.len() / 2);
    assert!(matches!(
        extractor.extract_examples(&truncated, None),
        Err(EgError::ExtractionFailed(_))
    ));
}

#[test]
fn example_that_is_not_text_is_invalid_encoding() {
    let extractor = CrateExtractor::new();
    let archive = archive_of(&[
        ("demo/examples/good.rs", b"fn main() {}"),
        ("demo/examples/bad.rs", &[0x66, 0x6e, 0xff, 0xfe]),
    ]);
    assert!(matches!(
        extractor.extract_examples(&archive, None),
        Err(EgError::InvalidEncoding(_))
    ));
    let harmless = archive_of(&[
        ("demo/examples/good.rs", b"fn main() {}"),
        ("demo/assets/blob.bin", &[0xff, 0xfe]),
    ]);
    assert_eq!(extractor.extract_examples(&harmless, None).unwrap().len(), 1);
}

#[test]
fn download_with_a_failure_status_is_download_failed() {
    let extractor = CrateExtractor::new();
    let archive = archive_of(&[("demo/examples/a.rs", b"fn a() {}")]);
    assert_eq!(
        extractor.extract_examples_from_download(404, &archive, None),
        Err(EgError::DownloadFailed(404))
    );
    assert_eq!(
        extractor.extract_examples_from_download(199, &archive, None),
        Err(EgError::DownloadFailed(199))
    );
    assert_eq!(
        extractor.extract_examples_from_download(300, &archive, None),
        Err(EgError::DownloadFailed(300))
    );
    assert_eq!(extractor.extract_examples_from_download(200, &archive, None).unwrap().len(), 1);
    assert_eq!(extractor.extract_examples_from_download(299, &archive, None).unwrap().len(), 1);
    assert_eq!(extractor.extract_examples_from_file(&archive, None).unwrap().len(), 1);
}

#[test]
fn download_url_follows_the_registry_layout() {
    let extractor = CrateExtractor::new();
    assert_eq!(
        extractor.download_url("serde", "1.0.219"),
        "https://static.crates.io/crates/serde/serde-1.0.219.crate"
    );
}

#[test]
fn cache_paths_follow_the_cache_layout() {
    let cache = CacheManager::new("/home/dev/.cargo");
    assert_eq!(cache.cache_dir(), "/home/dev/.cargo/registry/cache");
    let expected = "/home/dev/.cargo/registry/cache/github.com-1ecc6299db9ec823/serde-1.0.219.crate";
    assert_eq!(cache.expected_path("serde", "1.0.219"), expected);
    assert_eq!(cache.find_cached_crate("serde", "1.0.219", true), Some(expected.to_string()));
    assert_eq!(cache.find_cached_crate("serde", "1.0.219", false), None);
}

#[test]
fn search_result_counts_examples_and_matched_examples() {
    let quiet = Example::ExampleInMemory {
        filename: "quiet.rs".to_string(),
        contents: "fn main() {}".to_string(),
        search_matches: Vec::new(),
    };
    let on_disk = Example::ExampleOnDisk {
        path: "/tmp/demo/examples/disk.rs".to_string(),
        search_matches: vec![derive_range(), derive_range()],
    };
    let examples = vec![basic_example(), quiet, on_disk];
    let with = SearchResult::new("1.0.0".to_string(), examples.clone());
    assert_eq!(with.version, "1.0.0");
    assert_eq!(with.total_examples, 3);
    assert_eq!(with.matched_examples, 2);
    assert_eq!(with.examples, examples);
    let empty = SearchResult::new("1.0.0".to_string(), Vec::new());
    assert_eq!((empty.total_examples, empty.matched_examples), (0, 0));
}

#[test]
fn search_matches_reads_either_kind_of_example() {
    assert_eq!(basic_example().search_matches(), &[derive_range()]);
    let on_disk = Example::ExampleOnDisk {
        path: "examples/disk.rs".to_string(),
        search_matches: vec![derive_range(), derive_range()],
    };
    assert_eq!(on_disk.search_matches().len(), 2);
}

#[test]
fn unparseable_pattern_fails_before_the_search_takes_a_step() {
    let outcome = Eg::rust_crate("demo").pattern("foo(bar");
    assert!(matches!(outcome, Err(EgError::InvalidPattern(_))));
    let kept = RustCrateSearch::new("demo").version("^1.0").pattern("derive").unwrap();
    assert_eq!(kept.crate_name(), "demo");
    assert_eq!(kept.version_spec(), Some("^1.0"));
    assert_eq!(kept.compiled_pattern().unwrap().source(), "derive");
}

#[test]
fn search_walks_from_resolution_to_the_archive() {
    let cache = CacheManager::new("/home/dev/.cargo");
    let search = Eg::rust_crate("demo");
    assert_eq!(search.search(&cache, SearchEvent::Started), SearchAction::ResolveVersion);
    let path = "/home/dev/.cargo/registry/cache/github.com-1ecc6299db9ec823/demo-1.2.3.crate";
    assert_eq!(
        search.search(&cache, SearchEvent::Resolved { version: "1.2.3".to_string() }),
        SearchAction::ProbeCache { version: "1.2.3".to_string(), path: path.to_string() }
    );
    assert_eq!(
        search.search(
            &cache,
            SearchEvent::CacheProbed { version: "1.2.3".to_string(), found: true }
        ),
        SearchAction::ReadArchive { version: "1.2.3".to_string(), path: path.to_string() }
    );
    assert_eq!(
        search.search(
            &cache,
            SearchEvent::CacheProbed { version: "1.2.3".to_string(), found: false }
        ),
        SearchAction::Download {
            version: "1.2.3".to_string(),
            url: "https://static.crates.io/crates/demo/demo-1.2.3.crate".to_string(),
        }
    );
    assert_eq!(
        search.search(&cache, SearchEvent::Failed(EgError::PackageNotFound("demo".to_string()))),
        SearchAction::Fail(EgError::PackageNotFound("demo".to_string()))
    );
    assert_eq!(
        search.search(&cache, SearchEvent::Failed(EgError::Io("permission denied".to_string()))),
        SearchAction::Fail(EgError::Io("permission denied".to_string()))
    );
}

#[test]
fn archive_with_examples_finishes_the_search() {
    let cache = CacheManager::new("/home/dev/.cargo");
    let search = Eg::rust_crate("demo").pattern("derive").unwrap();
    let archive = archive_of(&[
        ("demo-1.2.3/examples/basic.rs", b"fn main() { derive(); }"),
        ("demo-1.2.3/examples/quiet.rs", b"fn main() {}"),
    ]);
    let action = search.search(
        &cache,
        SearchEvent::Downloaded { version: "1.2.3".to_string(), status: 200, body: archive },
    );
    match action {
        SearchAction::Finish(result) => {
            assert_eq!(result.version, "1.2.3");
            assert_eq!(result.total_examples, 2);
            assert_eq!(result.matched_examples, 1);
            assert_eq!(result.examples[0], basic_example());
            assert_eq!(result, SearchResult::new("1.2.3".to_string(), result.examples.clone()));
        }
        other => panic!("the search did not finish: {:?}", other),
    }
}

#[test]
fn without_a_pattern_no_example_counts_as_matched() {
    let cache = CacheManager::new("/home/dev/.cargo");
    let search = Eg::rust_crate("demo");
    let archive = archive_of(&[
        ("demo-1.2.3/examples/basic.rs", b"fn main() { derive(); }"),
        ("demo-1.2.3/examples/quiet.rs", b"fn main() {}"),
    ]);
    let action = search.search(
        &cache,
        SearchEvent::ArchiveRead { version: "1.2.3".to_string(), archive },
    );
    match action {
        SearchAction::Finish(result) => {
            assert_eq!(result.total_examples, 2);
            assert_eq!(result.matched_examples, 0);
            assert_eq!(result.examples.len(), 2);
        }
        other => panic!("the search did not finish: {:?}", other),
    }
}

#[test]
fn non_text_example_fails_the_search_with_its_name() {
    let cache = CacheManager::new("/home/dev/.cargo");
    let search = Eg::rust_crate("demo");
    let archive = archive_of(&[("demo-1.2.3/examples/bad.rs", &[0xff, 0xfe])]);
    assert_eq!(
        search.search(
            &cache,
            SearchEvent::ArchiveRead { version: "1.2.3".to_string(), archive }
        ),
        SearchAction::Fail(EgError::InvalidEncoding("bad.rs".to_string()))
    );
}

#[test]
fn archive_without_examples_triggers_the_fallback() {
    let cache = CacheManager::new("/home/dev/.cargo");
    let search = Eg::rust_crate("demo").pattern("derive").unwrap();
    let archive = archive_of(&[("demo-1.2.3/src/lib.rs", b"pub fn derive() {}")]);
    assert_eq!(
        search.search(
            &cache,
            SearchEvent::ArchiveRead { version: "1.2.3".to_string(), archive }
        ),
        SearchAction::RunFallback { version: "1.2.3".to_string() }
    );
    assert_eq!(
        search.search(
            &cache,
            SearchEvent::FallbackDone { version: "1.2.3".to_string(), examples: Vec::new() }
        ),
        SearchAction::Finish(SearchResult {
            version: "1.2.3".to_string(),
            total_examples: 0,
            matched_examples: 0,
            examples: Vec::new(),
        })
    );
}

#[test]
fn missing_repository_url_leaves_the_search_without_examples() {
    let cache = CacheManager::new("/home/dev/.cargo");
    let search = Eg::rust_crate("demo").pattern("derive").unwrap();
    assert_eq!(
        search.search(
            &cache,
            SearchEvent::FallbackFailed {
                version: "1.2.3".to_string(),
                error: EgError::NoRepositoryUrl("demo".to_string()),
            }
        ),
        SearchAction::Finish(SearchResult {
            version: "1.2.3".to_string(),
            total_examples: 0,
            matched_examples: 0,
            examples: Vec::new(),
        })
    );
    assert_eq!(
        search.search(
            &cache,
            SearchEvent::FallbackFailed {
                version: "1.2.3".to_string(),
                error: EgError::Transport("timed out".to_string()),
            }
        ),
        SearchAction::Fail(EgError::Transport("timed out".to_string()))
    );
}

#[test]
fn failed_download_and_corrupt_archive_fail_the_search() {
    let cache = CacheManager::new("/home/dev/.cargo");
    let search = Eg::rust_crate("demo");
    assert_eq!(
        search.search(
            &cache,
            SearchEvent::Downloaded { version: "1.2.3".to_string(), status: 503, body: Vec::new() }
        ),
        SearchAction::Fail(EgError::DownloadFailed(503))
    );
    let junk = b"junk".to_vec();
    assert!(matches!(
        search.search(
            &cache,
            SearchEvent::ArchiveRead { version: "1.2.3".to_string(), archive: junk }
        ),
        SearchAction::Fail(EgError::ExtractionFailed(_))
    ));
}

#[test]
fn cached_search_is_repeatable() {
    let cache = CacheManager::new("/home/dev/.cargo");
    let search = Eg::rust_crate("demo").pattern(r"fn \w+").unwrap();
    let archive = archive_of(&[
        ("demo-1.2.3/examples/z.rs", b"fn z() {}\nfn y() {}"),
        ("demo-1.2.3/examples/a.rs", b"fn a() {}"),
    ]);
    let event = SearchEvent::ArchiveRead { version: "1.2.3".to_string(), archive };
    let first = search.search(&cache, event.clone());
    let second = search.search(&cache, event);
    assert_eq!(first, second);
    match first {
        SearchAction::Finish(result) => {
            assert_eq!(result.version, "1.2.3");
            let names: Vec<String> = result
                .examples
                .iter()
                .map(|e| match e {
                    Example::ExampleInMemory { filename, .. } => filename.clone(),
                    Example::ExampleOnDisk { path, .. } => path.clone(),
                })
                .collect();
            assert_eq!(names, vec!["z.rs".to_string(), "a.rs".to_string()]);
            assert_eq!(result.examples[0].search_matches().len(), 2);
        }
        other => panic!("the search did not finish: {:?}", other),
    }
}
