use log_ingest::search::search_pattern;

#[test]
fn blank_keyword_selects_everything() {
    assert_eq!(search_pattern(""), None);
    assert_eq!(search_pattern("  \t"), None);
}

#[test]
fn keyword_becomes_like_pattern() {
    assert_eq!(search_pattern("sshd"), Some("%sshd%".to_string()));
    assert_eq!(search_pattern(" a "), Some("% a %".to_string()));
}
