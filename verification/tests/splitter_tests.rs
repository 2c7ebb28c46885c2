//! The splitter's normative examples, the round-trip rule, and the budget
//! derivation, checked on concrete values.

use linecache::cache::per_store_budget;
use linecache::cache::Fetched;
use linecache::cache::LineCache;
use linecache::cache::ReadOutcome;
use linecache::cache::StatOutcome;
use linecache::fingerprint::Fingerprint;
use linecache::split::split_content;

fn split(s: &str) -> Vec<String> {
    split_content(s)
}

fn rejoin(lines: &[String]) -> String {
    lines.join("\n")
}

#[test]
fn test_split_examples() {
    assert_eq!(split(""), Vec::<String>::new());
    assert_eq!(split("\n"), vec!["".to_string(), "".to_string()]);
    assert_eq!(split("hello\n"), vec!["hello".to_string(), "".to_string()]);
    assert_eq!(split("hello"), vec!["hello".to_string()]);
    assert_eq!(
        split("a\nb\nc\n"),
        vec!["a".to_string(), "b".to_string(), "c".to_string(), "".to_string()]
    );
}

#[test]
fn test_split_join_round_trip() {
    for content in ["", "hello", "hello\n", "a\nb\nc\n", "\n\n", "one\n\ntwo", "\rx\r"] {
        assert_eq!(rejoin(&split(content)), content);
    }
}

#[test]
fn test_split_windows_terminators() {
    // a "\r\n" is one terminator; a lone "\r" is ordinary content
    assert_eq!(split("a\r\nb"), vec!["a".to_string(), "b".to_string()]);
    assert_eq!(split("a\r\n"), vec!["a".to_string(), "".to_string()]);
    assert_eq!(split("a\r"), vec!["a\r".to_string()]);
}

#[test]
fn test_per_store_budget_values() {
    // floored at 1 GiB: (1 GiB * 85 / 100) / 2
    assert_eq!(per_store_budget(0), 456_340_275);
    assert_eq!(per_store_budget(1024 * 1024 * 1024), 456_340_275);
    // 100 bytes above the floor contribute 85 more split over two stores
    assert_eq!(per_store_budget(1024 * 1024 * 1024 + 200), 456_340_360);
}

#[test]
fn test_random_sign_single_character_file() {
    let mut c = LineCache::new(1024 * 1024, 1024 * 1024, 16);
    let content = "Z";
    let f = Fingerprint::new(7, 0, 1);
    let first = match c.random_sign("z.txt", &StatOutcome::Present(f)) {
        Fetched::Done(o) => o,
        Fetched::NeedsRead => c.random_sign_after_read(
            "z.txt",
            ReadOutcome::Present(content.to_string(), f),
        ),
    };
    assert_eq!(first, Some("Z".to_string()));
    // now cached: the draw still lands on the only character
    let again = match c.random_sign("z.txt", &StatOutcome::Present(f)) {
        Fetched::Done(o) => o,
        Fetched::NeedsRead => c.random_sign_after_read(
            "z.txt",
            ReadOutcome::Present(content.to_string(), f),
        ),
    };
    assert_eq!(again, Some("Z".to_string()));
}

#[test]
fn test_clear_cache_alias() {
    let mut c = LineCache::new(1024 * 1024, 1024 * 1024, 16);
    let content = "alias\n";
    let f = Fingerprint::new(3, 0, content.len() as u64);
    let line = match c.get_line("alias.txt", 1, &StatOutcome::Present(f)) {
        Fetched::Done(o) => o,
        Fetched::NeedsRead => c.get_line_after_read(
            "alias.txt",
            1,
            ReadOutcome::Present(content.to_string(), f),
        ),
    };
    assert_eq!(line, Some("alias".to_string()));
    c.clear_cache();
    assert!(matches!(
        c.get_line("alias.txt", 1, &StatOutcome::Present(f)),
        Fetched::NeedsRead
    ));
}
