use ham::json::{canonicalize_json_value, JsonNumber, JsonObject, JsonValue};

fn text(s: &str) -> JsonValue {
    JsonValue::String(s.to_string())
}

fn integer(i: i64) -> JsonValue {
    JsonValue::Number(JsonNumber::from_i64(i))
}

fn object(entries: Vec<(&str, JsonValue)>) -> JsonObject {
    let mut o = JsonObject::new();
    for (k, v) in entries {
        o.insert(k.to_string(), v);
    }
    o
}

fn keys_of(o: &JsonObject) -> Vec<String> {
    let mut keys = Vec::new();
    for i in 0..o.entry_count() {
        keys.push(o.entry(i).0.clone());
    }
    keys
}

#[test]
fn canonical_objects_sort_keys_at_every_level() {
    let inner = object(vec![("zeta", integer(1)), ("alpha", integer(2))]);
    let value = JsonValue::Object(object(vec![
        ("b", JsonValue::Array(vec![JsonValue::Object(inner), text("x")])),
        ("a", JsonValue::Null),
        ("Z", JsonValue::Bool(true)),
    ]));
    let canonical = canonicalize_json_value(&value);
    assert!(canonical == value);
    let JsonValue::Object(top) = &canonical else { panic!("object expected") };
    assert_eq!(keys_of(top), vec!["Z".to_string(), "a".to_string(), "b".to_string()]);
    let JsonValue::Array(items) = top.get("b").unwrap() else { panic!("array expected") };
    let JsonValue::Object(nested) = &items[0] else { panic!("object expected") };
    assert_eq!(keys_of(nested), vec!["alpha".to_string(), "zeta".to_string()]);
    assert_eq!(items[1], text("x"));
}

#[test]
fn canonical_form_depends_on_content_only() {
    let first = JsonValue::Object(object(vec![("n", integer(5)), ("m", text("v")), ("o", JsonValue::Null)]));
    let second = JsonValue::Object(object(vec![("o", JsonValue::Null), ("n", integer(5)), ("m", text("v"))]));
    let a = canonicalize_json_value(&first);
    let b = canonicalize_json_value(&second);
    let (JsonValue::Object(x), JsonValue::Object(y)) = (&a, &b) else { panic!("objects expected") };
    assert_eq!(keys_of(x), keys_of(y));
    assert_eq!(keys_of(x), vec!["m".to_string(), "n".to_string(), "o".to_string()]);
}

#[test]
fn canonical_scalars_are_unchanged() {
    assert_eq!(canonicalize_json_value(&integer(-3)), integer(-3));
    assert_eq!(canonicalize_json_value(&text("é")), text("é"));
    assert_eq!(canonicalize_json_value(&JsonValue::Bool(false)), JsonValue::Bool(false));
}
