use brocode_core_logic::json::{JsonMap, JsonValue};

fn text(v: &str) -> JsonValue {
    JsonValue::String(v.to_string())
}

#[test]
fn insert_replaces_and_returns_previous_value() {
    let mut m = JsonMap::new();
    assert!(m.insert("a".to_string(), text("1")).is_none());
    let previous = m.insert("a".to_string(), text("2"));
    assert!(previous.expect("previous value").same_as(&text("1")));
    assert!(m.get("a").expect("value").same_as(&text("2")));
    assert_eq!(m.keys(), vec!["a".to_string()]);
    assert!(m.contains_key("a"));
    assert!(!m.contains_key("b"));
    assert!(m.get("b").is_none());
}

#[test]
fn clear_removes_every_key() {
    let mut m = JsonMap::new();
    m.insert("a".to_string(), JsonValue::Null);
    m.insert("b".to_string(), JsonValue::Bool(false));
    m.clear();
    assert!(m.keys().is_empty());
    assert!(m.same_as(&JsonMap::new()));
}

#[test]
fn objects_compare_regardless_of_entry_order() {
    let mut a = JsonMap::new();
    a.insert("x".to_string(), JsonValue::Number("1".to_string()));
    a.insert("y".to_string(), JsonValue::Array(vec![text("p"), JsonValue::Null]));
    let mut b = JsonMap::new();
    b.insert("y".to_string(), JsonValue::Array(vec![text("p"), JsonValue::Null]));
    b.insert("x".to_string(), JsonValue::Number("1".to_string()));
    assert!(JsonValue::Object(a).same_as(&JsonValue::Object(b)));
}

#[test]
fn values_of_different_content_differ() {
    assert!(!text("a").same_as(&text("b")));
    assert!(!text("1").same_as(&JsonValue::Number("1".to_string())));
    assert!(!JsonValue::Array(vec![JsonValue::Null]).same_as(&JsonValue::Array(vec![])));
    let mut a = JsonMap::new();
    a.insert("x".to_string(), JsonValue::Bool(true));
    let mut b = JsonMap::new();
    b.insert("x".to_string(), JsonValue::Bool(false));
    assert!(!a.same_as(&b));
    let mut c = JsonMap::new();
    c.insert("z".to_string(), JsonValue::Bool(true));
    assert!(!a.same_as(&c));
}
