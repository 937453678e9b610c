use cookie_fetch::scope::Scope;

fn patterns(ps: &[&str]) -> Vec<String> {
    ps.iter().map(|p| p.to_string()).collect()
}

#[test]
fn scope_matches_full_form() {
    let scope = Scope::from_patterns(patterns(&["https://example.com/*"])).unwrap();
    assert!(scope.is_allowed("https://example.com/"));
    assert!(scope.is_allowed("https://example.com/index.html"));
    assert!(!scope.is_allowed("https://other.example.org/"));
    assert!(!scope.is_allowed("http://example.com/"));
}

#[test]
fn wildcard_crosses_path_segments() {
    let scope = Scope::from_patterns(patterns(&["https://example.com/*"])).unwrap();
    assert!(scope.is_allowed("https://example.com/a/b/c?q=1"));
}

#[test]
fn empty_scope_denies_everything() {
    let scope = Scope::default();
    assert!(!scope.is_allowed("https://example.com/"));
    assert!(!scope.is_allowed(""));
    assert_eq!(scope.pattern_count(), 0);
}

#[test]
fn second_pattern_can_match() {
    let scope = Scope::from_patterns(patterns(&[
        "https://a.example.com/*",
        "https://b.example.com/*",
    ]))
    .unwrap();
    assert!(scope.is_allowed("https://b.example.com/x"));
    assert!(!scope.is_allowed("https://c.example.com/x"));
}

#[test]
fn invalid_pattern_reports_its_index() {
    let r = Scope::from_patterns(patterns(&["https://example.com/*", "a***b"]));
    assert_eq!(r.err(), Some(1));
}
