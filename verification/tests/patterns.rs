use rwc::counter::count_content;
use rwc::options::Options;
use rwc::pattern::{classify_pattern, is_stdin_marker, PatternClass};

#[test]
fn stdin_marker_is_recognised_before_globbing() {
    assert_eq!(classify_pattern("-"), PatternClass::StdinMarker);
    assert!(is_stdin_marker("-"));
    assert!(!is_stdin_marker("--"));
    assert!(!is_stdin_marker("a"));
    assert!(!is_stdin_marker(""));
}

#[test]
fn plain_filenames_are_valid_globs() {
    assert_eq!(classify_pattern("a.txt"), PatternClass::ValidGlob);
    assert_eq!(classify_pattern("src/lib.rs"), PatternClass::ValidGlob);
}

#[test]
fn recursive_wildcards_are_valid_globs() {
    assert_eq!(classify_pattern("**/*.js"), PatternClass::ValidGlob);
    assert_eq!(classify_pattern("*"), PatternClass::ValidGlob);
}

#[test]
fn malformed_patterns_are_rejected() {
    assert_eq!(classify_pattern("["), PatternClass::MalformedGlob);
    assert_eq!(classify_pattern("***"), PatternClass::MalformedGlob);
    assert_eq!(classify_pattern("a**/b"), PatternClass::MalformedGlob);
}

#[test]
fn one_malformed_pattern_leaves_its_siblings_unaffected() {
    let patterns = vec!["a.txt", "["];
    let classes: Vec<PatternClass> = patterns.iter().map(|p| classify_pattern(p)).collect();
    assert_eq!(classes[0], PatternClass::ValidGlob);
    assert_eq!(classes[1], PatternClass::MalformedGlob);

    // the valid pattern's file still yields its one result line
    let opt = Options::new(false, false, false, false, false);
    let counts = count_content(b"hello\n", &opt);
    let line = counts.display("a.txt", &opt);
    assert_eq!(line.as_deref(), Some("1 1 6 a.txt\n"));
}
