//! The facade exercised end to end: a tiny in-test filesystem hands stat
//! and read outcomes to the cache, exactly as a real caller would.

use linecache::cache::ContentOutcome;
use linecache::cache::Fetched;
use linecache::cache::LineCache;
use linecache::cache::ReadOutcome;
use linecache::cache::StatOutcome;
use linecache::fingerprint::Fingerprint;

fn small_cache() -> LineCache {
    LineCache::new(8 * 1024 * 1024, 8 * 1024 * 1024, 64)
}

fn stat_of(file: Option<(&str, Fingerprint)>) -> StatOutcome {
    match file {
        Some((_, f)) => StatOutcome::Present(f),
        None => StatOutcome::Absent,
    }
}

fn get_line(c: &mut LineCache, path: &str, n: usize, file: Option<(&str, Fingerprint)>) -> Option<String> {
    match c.get_line(path, n, &stat_of(file)) {
        Fetched::Done(o) => o,
        Fetched::NeedsRead => {
            let read = match file {
                Some((s, f)) => ReadOutcome::Present(s.to_string(), f),
                None => ReadOutcome::Absent,
            };
            c.get_line_after_read(path, n, read)
        }
    }
}

fn get_lines(c: &mut LineCache, path: &str, file: Option<(&str, Fingerprint)>) -> Option<Vec<String>> {
    match c.get_lines(path, &stat_of(file)) {
        Fetched::Done(o) => o,
        Fetched::NeedsRead => {
            let read = match file {
                Some((s, f)) => ReadOutcome::Present(s.to_string(), f),
                None => ReadOutcome::Absent,
            };
            c.get_lines_after_read(path, read)
        }
    }
}

fn get_content(c: &mut LineCache, path: &str, file: Option<(&str, Fingerprint)>) -> Option<String> {
    match c.get_content(path, &stat_of(file)) {
        Fetched::Done(o) => o,
        Fetched::NeedsRead => {
            let read = match file {
                Some((s, f)) => ContentOutcome::Present(s.to_string(), f),
                None => ContentOutcome::Absent,
            };
            c.get_content_after_read(path, read)
        }
    }
}

fn random_line(c: &mut LineCache, path: &str, file: Option<(&str, Fingerprint)>) -> Option<String> {
    match c.random_line(path, &stat_of(file)) {
        Fetched::Done(o) => o,
        Fetched::NeedsRead => {
            let read = match file {
                Some((s, f)) => ReadOutcome::Present(s.to_string(), f),
                None => ReadOutcome::Absent,
            };
            c.random_line_after_read(path, read)
        }
    }
}

fn random_sign_char(c: &mut LineCache, path: &str, file: Option<(&str, Fingerprint)>) -> Option<char> {
    match c.random_sign_char(path, &stat_of(file)) {
        Fetched::Done(o) => o,
        Fetched::NeedsRead => {
            let read = match file {
                Some((s, f)) => ReadOutcome::Present(s.to_string(), f),
                None => ReadOutcome::Absent,
            };
            c.random_sign_char_after_read(path, read)
        }
    }
}

fn random_sign(c: &mut LineCache, path: &str, file: Option<(&str, Fingerprint)>) -> Option<String> {
    match c.random_sign(path, &stat_of(file)) {
        Fetched::Done(o) => o,
        Fetched::NeedsRead => {
            let read = match file {
                Some((s, f)) => ReadOutcome::Present(s.to_string(), f),
                None => ReadOutcome::Absent,
            };
            c.random_sign_after_read(path, read)
        }
    }
}

#[test]
fn test_basic_line_retrieval_and_boundaries() {
    let mut c = small_cache();
    let content = "Line 1\nLine 2\nLine 3\nLast Line\n";
    let f = Fingerprint::new(1000, 0, content.len() as u64);
    let file = Some((content, f));
    assert_eq!(get_line(&mut c, "basic.txt", 1, file), Some("Line 1".to_string()));
    assert_eq!(get_line(&mut c, "basic.txt", 4, file), Some("Last Line".to_string()));
    assert_eq!(get_line(&mut c, "basic.txt", 5, file), Some(String::new()));
    assert_eq!(get_line(&mut c, "basic.txt", 0, file), None);
    assert_eq!(get_line(&mut c, "basic.txt", 6, file), None);
}

#[test]
fn test_empty_and_not_found_files() {
    let mut c = small_cache();
    let f = Fingerprint::new(1000, 0, 0);
    let empty = Some(("", f));
    assert_eq!(get_line(&mut c, "empty.txt", 1, empty), None);
    assert_eq!(get_lines(&mut c, "empty.txt", empty), None);
    assert_eq!(get_content(&mut c, "empty.txt", empty), Some(String::new()));
    assert_eq!(random_line(&mut c, "empty.txt", empty), None);
    let fn_ = Fingerprint::new(1000, 0, 1);
    let newline_only = Some(("\n", fn_));
    assert_eq!(get_line(&mut c, "newline.txt", 1, newline_only), Some(String::new()));
    assert_eq!(get_line(&mut c, "newline.txt", 2, newline_only), Some(String::new()));
    assert_eq!(get_line(&mut c, "newline.txt", 3, newline_only), None);
    assert_eq!(
        get_lines(&mut c, "newline.txt", newline_only),
        Some(vec![String::new(), String::new()])
    );
    assert_eq!(get_content(&mut c, "newline.txt", newline_only), Some("\n".to_string()));
    assert_eq!(get_line(&mut c, "not-exist.txt", 1, None), None);
    assert_eq!(get_lines(&mut c, "not-exist.txt", None), None);
    assert_eq!(get_content(&mut c, "not-exist.txt", None), None);
    assert_eq!(random_line(&mut c, "not-exist.txt", None), None);
}

#[test]
fn test_file_modification_detection() {
    let mut c = small_cache();
    let v1 = "v1\n";
    let f1 = Fingerprint::new(100, 0, v1.len() as u64);
    assert_eq!(get_line(&mut c, "mod.txt", 1, Some((v1, f1))), Some("v1".to_string()));
    assert_eq!(get_line(&mut c, "mod.txt", 2, Some((v1, f1))), Some(String::new()));

    let v2 = "v2\nv22\n";
    let f2 = Fingerprint::new(100, 0, v2.len() as u64);
    assert_eq!(get_line(&mut c, "mod.txt", 1, Some((v2, f2))), Some("v2".to_string()));
    assert_eq!(get_line(&mut c, "mod.txt", 2, Some((v2, f2))), Some("v22".to_string()));
    assert_eq!(get_line(&mut c, "mod.txt", 3, Some((v2, f2))), Some(String::new()));

    let v3 = "v1\n";
    let f3 = Fingerprint::new(200, 0, v3.len() as u64);
    assert_eq!(get_line(&mut c, "mod.txt", 1, Some((v3, f3))), Some("v1".to_string()));
    assert_eq!(get_line(&mut c, "mod.txt", 2, Some((v3, f3))), Some(String::new()));
}

#[test]
fn test_get_lines_and_content() {
    let mut c = small_cache();
    let content = "Hello\nWorld\nRust\n";
    let f = Fingerprint::new(1000, 0, content.len() as u64);
    let file = Some((content, f));
    assert_eq!(
        get_lines(&mut c, "hello.txt", file),
        Some(vec![
            "Hello".to_string(),
            "World".to_string(),
            "Rust".to_string(),
            String::new(),
        ])
    );
    assert_eq!(get_content(&mut c, "hello.txt", file), Some(content.to_string()));
}

#[test]
fn test_random_getters() {
    let mut c = small_cache();
    let content = "A\nB\nC\nD\n中文\n🚀\n";
    let f = Fingerprint::new(200, 0, content.len() as u64);
    let file = Some((content, f));
    let mut distinct_lines: Vec<String> = Vec::new();
    let mut distinct_signs: Vec<String> = Vec::new();
    let mut distinct_chars: Vec<char> = Vec::new();
    for _ in 0..200 {
        if let Some(l) = random_line(&mut c, "rand.txt", file) {
            if !distinct_lines.contains(&l) {
                distinct_lines.push(l);
            }
        }
        if let Some(s) = random_sign(&mut c, "rand.txt", file) {
            if !distinct_signs.contains(&s) {
                distinct_signs.push(s);
            }
        }
        if let Some(ch) = random_sign_char(&mut c, "rand.txt", file) {
            if !distinct_chars.contains(&ch) {
                distinct_chars.push(ch);
            }
        }
    }
    assert!(distinct_lines.len() > 3);
    assert!(distinct_signs.len() > 5);
    assert!(distinct_chars.len() > 5);
}

#[test]
fn test_invalidation_and_clear() {
    let mut c = small_cache();
    let c1 = "file1\n";
    let f1 = Fingerprint::new(1000, 0, c1.len() as u64);
    let c2 = "file2\n";
    let f2 = Fingerprint::new(1000, 0, c2.len() as u64);
    assert_eq!(get_line(&mut c, "one.txt", 1, Some((c1, f1))), Some("file1".to_string()));
    assert_eq!(get_line(&mut c, "two.txt", 1, Some((c2, f2))), Some("file2".to_string()));

    c.invalidate("one.txt");
    // the invalidated path is a fresh miss; the other path still serves
    // straight from the cache
    assert!(matches!(
        c.get_line("one.txt", 1, &StatOutcome::Present(f1)),
        Fetched::NeedsRead
    ));
    assert_eq!(
        c.get_line("two.txt", 1, &StatOutcome::Present(f2)),
        Fetched::Done(Some("file2".to_string()))
    );

    c.clear();
    assert!(matches!(
        c.get_line("two.txt", 1, &StatOutcome::Present(f2)),
        Fetched::NeedsRead
    ));
}

#[test]
fn test_unchanged_fingerprint_serves_cached() {
    // the fingerprint is the sole staleness signal: with mtime and size
    // unchanged, the cached lines are served without any reload
    let mut c = small_cache();
    let f = Fingerprint::new(500, 0, 6);
    assert_eq!(get_line(&mut c, "same.txt", 1, Some(("first\n", f))), Some("first".to_string()));
    assert_eq!(
        c.get_line("same.txt", 1, &StatOutcome::Present(f)),
        Fetched::Done(Some("first".to_string()))
    );
}

#[test]
fn test_content_modification_and_isolation() {
    let mut c = small_cache();
    let v1 = "old content\n";
    let f1 = Fingerprint::new(10, 0, v1.len() as u64);
    let other = "elsewhere\n";
    let fo = Fingerprint::new(10, 0, other.len() as u64);
    assert_eq!(get_content(&mut c, "doc.txt", Some((v1, f1))), Some(v1.to_string()));
    // the read-through records the fingerprint along with the content, so
    // the next call under the same fingerprint is served from cache
    assert_eq!(get_content(&mut c, "other.txt", Some((other, fo))), Some(other.to_string()));

    // the rewritten file is observed whole on the next call
    let v2 = "new content, longer\n";
    let f2 = Fingerprint::new(20, 0, v2.len() as u64);
    assert_eq!(get_content(&mut c, "doc.txt", Some((v2, f2))), Some(v2.to_string()));

    // the unrelated path still answers from its cached content: a stat
    // with the same fingerprint finds it without a read
    assert_eq!(
        c.get_content("other.txt", &StatOutcome::Present(fo)),
        Fetched::Done(Some(other.to_string()))
    );
}

#[test]
fn test_large_entry_retained_within_budget() {
    // an entry well under the budget stays resident: the second call is a
    // hit, and the charged weight covers at least the text itself
    let mut c = LineCache::new(1024 * 1024, 1024 * 1024, 64);
    let big = "y".repeat(10 * 1024);
    let content = format!("{big}\nLine2\n");
    let f = Fingerprint::new(1000, 0, content.len() as u64);
    assert_eq!(
        get_line(&mut c, "kept.txt", 2, Some((content.as_str(), f))),
        Some("Line2".to_string())
    );
    assert_eq!(
        c.get_line("kept.txt", 2, &StatOutcome::Present(f)),
        Fetched::Done(Some("Line2".to_string()))
    );
    let w = c.lines_weight();
    assert!(w >= 10 * 1024);
    assert!(w <= 1024 * 1024);
}

#[test]
fn test_weigher_sanity() {
    // a budget far below the entry's footprint: the oversized entry is the
    // first evicted, and the resident weight settles back under the budget
    let mut tiny = LineCache::new(1024, 1024, 64);
    let big = "x".repeat(10 * 1024);
    let content = format!("{big}\nLine2\n");
    let f = Fingerprint::new(1000, 0, content.len() as u64);
    let got = get_line(&mut tiny, "big.txt", 2, Some((content.as_str(), f)));
    assert_eq!(got, Some("Line2".to_string()));
    assert!(tiny.lines_weight() <= 1024);

    // a roomy budget: the entry stays resident and its charged weight is
    // its true footprint, above the raw text size yet within the budget
    let mut roomy = LineCache::new(1024 * 1024, 1024 * 1024, 64);
    let got = get_line(&mut roomy, "big.txt", 2, Some((content.as_str(), f)));
    assert_eq!(got, Some("Line2".to_string()));
    let w = roomy.lines_weight();
    assert!(w > 0 && w <= 1024 * 1024);
}
