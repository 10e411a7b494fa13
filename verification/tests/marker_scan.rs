use ralph::text::contains_str;

#[test]
fn finds_marker_anywhere() {
    assert!(contains_str("working...\nDONE\n", "DONE"));
    assert!(contains_str("DONE", "DONE"));
    assert!(contains_str("prefix DONE suffix", "DONE"));
    assert!(contains_str("xx<completion>DONE</completion>yy", "<completion>DONE</completion>"));
}

#[test]
fn scan_is_exact_and_case_sensitive() {
    assert!(!contains_str("done", "DONE"));
    assert!(!contains_str("DON E", "DONE"));
    assert!(!contains_str("DON", "DONE"));
    assert!(!contains_str("", "DONE"));
}

#[test]
fn scan_is_not_anchored_to_line_boundaries() {
    assert!(contains_str("half-DONE-and more\n", "DONE"));
    assert!(contains_str("a\nbDONEc\nd", "DONE"));
}

#[test]
fn empty_needle_always_matches() {
    assert!(contains_str("", ""));
    assert!(contains_str("anything", ""));
}

#[test]
fn needle_longer_than_haystack_never_matches() {
    assert!(!contains_str("DO", "DONE"));
}
