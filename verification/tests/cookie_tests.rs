use user_entry::cookie::{cookie_value, token_of, MADOME_ACCESS_TOKEN, MADOME_REFRESH_TOKEN};

#[test]
fn both_tokens_are_extracted() {
    let header = "madome_access_token=at-1; madome_refresh_token=rt-2";
    assert_eq!(token_of(header, MADOME_ACCESS_TOKEN), "at-1".to_owned());
    assert_eq!(token_of(header, MADOME_REFRESH_TOKEN), "rt-2".to_owned());
}

#[test]
fn missing_cookie_yields_the_empty_token() {
    assert_eq!(token_of("", MADOME_ACCESS_TOKEN), String::new());
    assert_eq!(token_of("other=1", MADOME_REFRESH_TOKEN), String::new());
    assert_eq!(cookie_value("other=1", MADOME_ACCESS_TOKEN), None);
}

#[test]
fn duplicate_names_take_the_last_occurrence() {
    let header = "a=1; a=2; a=3";
    assert_eq!(cookie_value(header, "a"), Some("3".to_owned()));
}

#[test]
fn entries_are_trimmed_of_spaces() {
    let header = "  a=1 ;\tb=2  ";
    assert_eq!(cookie_value(header, "a"), Some("1".to_owned()));
    assert_eq!(cookie_value(header, "b"), Some("2".to_owned()));
}

#[test]
fn entry_without_equals_is_skipped() {
    assert_eq!(cookie_value("junk; a=1", "junk"), None);
    assert_eq!(cookie_value("junk; a=1", "a"), Some("1".to_owned()));
}

#[test]
fn value_keeps_everything_after_the_first_equals() {
    assert_eq!(cookie_value("a=x=y", "a"), Some("x=y".to_owned()));
    assert_eq!(cookie_value("a=", "a"), Some(String::new()));
}
