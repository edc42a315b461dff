use scrape_pipeline::executor::ExecutorAction;
use scrape_pipeline::executor::FileDisposition;
use scrape_pipeline::executor::decide_download;
use scrape_pipeline::executor::finalize_download;
use scrape_pipeline::naming::dec_string;
use scrape_pipeline::naming::join_path;
use scrape_pipeline::naming::padded3;
use scrape_pipeline::naming::sanitize_segment;

#[test]
fn padded_indices_match_document_positions() {
    assert_eq!(padded3(0), "000");
    assert_eq!(padded3(7), "007");
    assert_eq!(padded3(41), "041");
    assert_eq!(padded3(100), "100");
    assert_eq!(padded3(999), "999");
    assert_eq!(padded3(1234), "1234");
}

#[test]
fn decimal_rendering_is_exact() {
    assert_eq!(dec_string(0), "0");
    assert_eq!(dec_string(10), "10");
    assert_eq!(dec_string(90210), "90210");
    assert_eq!(dec_string(u64::MAX), "18446744073709551615");
}

#[test]
fn join_path_inserts_one_separator() {
    assert_eq!(join_path("out/manga", "Chapter 1"), "out/manga/Chapter 1");
    assert_eq!(join_path("", "x"), "/x");
}

#[test]
fn sanitize_is_idempotent() {
    let candidates = [
        "Chapter 1",
        "Read: http://blog.getreu.net/projects/tp-note/",
        "a/b\\c",
        "  spaced  out  ",
        "tabs\tand\nnewlines",
        "dots...and-dashes-",
        "_underscore_ _tricks__",
        "caf\u{e9} au lait",
        "",
        "...",
        "semi;colon, comma",
    ];
    for c in candidates {
        let once = sanitize_segment(c);
        let twice = sanitize_segment(&once);
        assert_eq!(twice, once, "sanitize changed its own output for {:?}", c);
    }
}

#[test]
fn sanitize_leaves_no_separators_or_controls() {
    let candidates =
        ["a/b", "a\\b", "x\u{0007}y", "line\r\nbreak", "plain name", "trail/", "/lead"];
    for c in candidates {
        let s = sanitize_segment(c);
        assert!(!s.contains('/'), "separator survived in {:?}", s);
        assert!(!s.contains('\\'), "separator survived in {:?}", s);
        assert!(s.chars().all(|ch| !ch.is_control()), "control survived in {:?}", s);
        assert!(s.len() <= c.len());
    }
}

#[test]
fn sanitize_replaces_reserved_characters() {
    assert_eq!(sanitize_segment("a/b"), "a_b");
    assert_eq!(sanitize_segment("col:on"), "col_on");
    assert_eq!(sanitize_segment("star*"), "star");
    assert_eq!(sanitize_segment("Chapter 1"), "Chapter 1");
}

#[test]
fn existing_destination_is_skipped() {
    assert_eq!(decide_download(true), ExecutorAction::Skip);
    assert_eq!(decide_download(false), ExecutorAction::Fetch);
}

#[test]
fn only_a_full_copy_is_kept() {
    assert_eq!(finalize_download(true), FileDisposition::KeepFinal);
    assert_eq!(finalize_download(false), FileDisposition::RemovePartial);
}
