//! Client state tests that need no server.

#[test]
fn tandoor_client_set_token_marks_authenticated() {
    let mut client = mcp_tandoor::TandoorClient::new("http://localhost:8080".to_string());
    assert!(!client.is_authenticated());
    client.set_token("tda_test_token".to_string());
    assert!(client.is_authenticated());
    assert_eq!(client.get_token(), Some("tda_test_token"));
}

/// Reads the fields of a keyword object the way the API answer is decoded,
/// then builds the keyword from them.
fn keyword_from_json(json: &str) -> Result<mcp_tandoor::client::Keyword, mcp_tandoor::client::types::KeywordFieldError> {
    let v: serde_json::Value = serde_json::from_str(json).expect("valid JSON");
    let text = |k: &str| v.get(k).and_then(|x| x.as_str()).map(|s| s.to_string());
    let number = |k: &str| v.get(k).and_then(|x| x.as_i64()).map(|n| n as i32);
    mcp_tandoor::client::Keyword::from_fields(
        number("id"),
        text("name"),
        text("label"),
        text("description"),
        number("numchild"),
        text("full_name"),
    )
}

#[test]
fn keyword_with_label_field() {
    // Some Tandoor endpoints return "label" instead of "name"
    let json = r#"{"id": 1, "label": "dinner"}"#;
    let kw = keyword_from_json(json).expect("should deserialize label as name");
    assert_eq!(kw.name, "dinner");
}

#[test]
fn keyword_with_name_field() {
    let json = r#"{"id": 2, "name": "breakfast"}"#;
    let kw = keyword_from_json(json).expect("should deserialize name field");
    assert_eq!(kw.name, "breakfast");
}
