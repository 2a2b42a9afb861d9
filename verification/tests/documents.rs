use oplire::json::{Json, JsonMap};
use serde_json::Value;

fn value(text: &str) -> Value {
    serde_json::from_str(text).unwrap()
}

#[test]
fn parsed_documents_convert_back_to_what_was_written() {
    let text = r#"{"a":[1,-2.5,1e300,18446744073709551615],"b":{"c":null,"d":true,"e":"xé"},"f":[]}"#;
    let document = Json::parse(text.as_bytes()).unwrap();
    assert_eq!(document.to_value(), value(text));
    assert_eq!(Json::from_value(value(text)).to_value(), value(text));
}

#[test]
fn of_repeated_members_the_parser_keeps_the_last() {
    let document = Json::parse(br#"{"a":1,"a":2}"#).unwrap();
    assert_eq!(document.to_value(), value(r#"{"a":2}"#));
}

#[test]
fn the_error_of_a_broken_document_is_the_parsers() {
    let message = Json::parse(b"{\"a\":").unwrap_err();
    assert_eq!(message, "EOF while parsing a value at line 1 column 5");
    let message = Json::parse(b"\xff").unwrap_err();
    assert_eq!(message, "expected value at line 1 column 1");
}

#[test]
fn members_are_set_found_and_removed() {
    let mut map = JsonMap::new();
    assert!(map.is_empty());
    map.insert("a".to_string(), Json::Bool(true));
    map.insert("b".to_string(), Json::Null);
    map.insert("a".to_string(), Json::Text("x".to_string()));
    assert!(map.contains_key("a"));
    assert!(!map.contains_key("c"));
    assert_eq!(map.get("a").unwrap().as_str(), Some("x"));
    assert!(map.get("c").is_none());
    *map.get_mut("b").unwrap() = Json::Bool(false);
    assert!(map.get_mut("c").is_none());
    assert_eq!(map.get("b").unwrap().as_bool(), Some(false));
    map.remove("a");
    map.remove("a");
    assert!(!map.is_empty());
    assert_eq!(Json::Object(map).to_value(), value(r#"{"b":false}"#));
}

#[test]
fn accessors_answer_for_their_own_kind_only() {
    let text = Json::Text("x".to_string());
    assert_eq!(text.as_str(), Some("x"));
    assert!(text.as_bool().is_none());
    assert!(text.as_array().is_none());
    assert!(text.get("x").is_none());
    assert!(text.is_text("x"));
    assert!(!text.is_text("y"));
    let array = Json::Array(vec![Json::Null]);
    assert_eq!(array.as_array().unwrap().len(), 1);
    assert!(array.as_str().is_none());
    let mut object = Json::parse(br#"{"a":{"b":1}}"#).unwrap();
    *object.get_mut("a").unwrap() = Json::Null;
    assert!(object.get_mut("b").is_none());
    assert_eq!(object.to_value(), value(r#"{"a":null}"#));
}
