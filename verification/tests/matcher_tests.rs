use user_entry::matcher::extract;
use user_entry::matcher::split_str;

fn path_matches(path: &str, pattern: &str) -> bool {
    user_entry::matcher::matches(path, pattern)
}

#[test]
fn literal_pattern_matches_itself() {
    assert!(path_matches("/users", "/users"));
    assert!(path_matches("/users/@me", "/users/@me"));
}

#[test]
fn variable_segment_matches_any_nonempty_segment() {
    assert!(path_matches("/users/abc", "/users/:user_id"));
    assert!(path_matches("/users/@me", "/users/:user_id"));
    assert!(path_matches("/users/123-456", "/users/:user_id"));
}

#[test]
fn variable_segment_refuses_empty_segment() {
    assert!(!path_matches("/users/", "/users/:user_id"));
}

#[test]
fn unequal_segment_counts_never_match() {
    assert!(!path_matches("/users", "/users/:user_id"));
    assert!(!path_matches("/users/a/b", "/users/:user_id"));
    assert!(!path_matches("/users/a", "/users"));
    assert!(!path_matches("/users/", "/users"));
}

#[test]
fn literal_mismatch_refuses() {
    assert!(!path_matches("/books/abc", "/users/:user_id"));
    assert!(!path_matches("/users/@me", "/users/@you"));
    assert!(!path_matches("users/abc", "/users/:user_id"));
}

#[test]
fn extract_returns_the_aligned_segment() {
    assert_eq!(extract("/users/abc", "/users/:user_id"), Some("abc".to_owned()));
    assert_eq!(extract("/users/@me", "/users/:user_id"), Some("@me".to_owned()));
}

#[test]
fn extract_without_variable_or_match_is_none() {
    assert_eq!(extract("/users", "/users"), None);
    assert_eq!(extract("/books/abc", "/users/:user_id"), None);
    assert_eq!(extract("/users/", "/users/:user_id"), None);
}

#[test]
fn split_mirrors_str_split() {
    let cases = ["", "/", "/users", "users/", "a//b", "/users/@me"];
    for s in cases {
        let got = split_str(s, '/');
        let want: Vec<String> = s.split('/').map(|p| p.to_owned()).collect();
        assert_eq!(got, want);
    }
}
