use mcp_tandoor::server::filter_by_meal_type;
use mcp_tandoor::text::{chars_of, contains_text, decimal_string, join_with, same_text, starts_visibly_with};
use mcp_tandoor::TandoorClient;

#[test]
fn decimal_rendering() {
    assert_eq!(decimal_string(0), "0");
    assert_eq!(decimal_string(7), "7");
    assert_eq!(decimal_string(1234567890), "1234567890");
    assert_eq!(decimal_string(-45), "-45");
    assert_eq!(decimal_string(i64::MAX), "9223372036854775807");
    assert_eq!(decimal_string(i64::MIN), "-9223372036854775808");
}

#[test]
fn substring_search() {
    assert!(contains_text("olive oil", "oil"));
    assert!(contains_text("olive oil", ""));
    assert!(contains_text("", ""));
    assert!(!contains_text("oil", "olive oil"));
    assert!(!contains_text("butter", "bread"));
    assert!(contains_text("crème fraîche", "ème fraî"));
}

#[test]
fn joining() {
    let v = vec!["a=1".to_string(), "b=2".to_string(), "c=3".to_string()];
    assert_eq!(join_with(&v, "&"), "a=1&b=2&c=3");
    assert_eq!(join_with(&vec!["x".to_string()], "&"), "x");
    assert_eq!(join_with(&Vec::new(), "&"), "");
}

#[test]
fn encoding_and_case() {
    let c = TandoorClient::new("http://h".to_string());
    assert_eq!(c.search_foods_url("a b/c?d", None), "http://h/api/food/?query=a%20b%2Fc%3Fd");
    assert_eq!(c.search_foods_url("AZaz09-._~", None), "http://h/api/food/?query=AZaz09-._~");
    let names = vec!["Dinner ÉTÉ".to_string(), "Lunch".to_string()];
    assert_eq!(filter_by_meal_type(&names, Some("DINNER été")), vec![0]);
}

#[test]
fn characters_and_equality() {
    assert_eq!(chars_of("né"), vec!['n', 'é']);
    assert!(same_text("grouped", "grouped"));
    assert!(!same_text("grouped", "Grouped"));
    assert!(!same_text("group", "grouped"));
    assert!(starts_visibly_with(" \r\n{", '{'));
}
