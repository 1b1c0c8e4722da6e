use filegram::release::{parse_tag_name, release_url};

#[test]
fn parses_tag_name_from_api_response() {
    let json = r#"{"url":"https://api.github.com/...","tag_name":"v0.2.2","name":"0.2.2"}"#;
    assert_eq!(parse_tag_name(json), Some("v0.2.2".to_string()));
}

#[test]
fn parses_tag_name_with_spacing() {
    assert_eq!(
        parse_tag_name("{ \"tag_name\" : \"v1.0.0\" }"),
        Some("v1.0.0".to_string())
    );
}

#[test]
fn rejects_response_without_tag_name() {
    assert_eq!(parse_tag_name(r#"{"message":"Not Found"}"#), None);
    assert_eq!(parse_tag_name(""), None);
}

#[test]
fn rejects_empty_tag_name() {
    assert_eq!(parse_tag_name(r#"{"tag_name":""}"#), None);
}

#[test]
fn rejects_a_tag_name_that_is_not_a_string() {
    assert_eq!(parse_tag_name(r#"{"tag_name":null}"#), None);
    assert_eq!(parse_tag_name(r#"{"tag_name" "v1"}"#), None);
    assert_eq!(parse_tag_name(r#"{"tag_name":"v1"#), None);
}

#[test]
fn only_the_first_tag_name_counts() {
    assert_eq!(
        parse_tag_name(r#"{"tag_name":"v2.0.0","x":{"tag_name":"v1"}}"#),
        Some("v2.0.0".to_string())
    );
}

#[test]
fn release_url_points_at_the_tag_page() {
    assert_eq!(
        release_url("v0.3.1"),
        "https://github.com/filegram/filegram-desktop/releases/tag/v0.3.1"
    );
}
