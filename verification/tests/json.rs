//! Values as they are read from JSON.

use boro::json::contains_value;
use boro::json::{Json, JsonMap, JsonNumber};
use serde_json::Value;

/// Reads a value from its text.
fn json(text: &str) -> Json {
    from_value(&serde_json::from_str(text).expect("valid JSON"))
}

fn from_value(value: &Value) -> Json {
    match value {
        Value::Null => Json::Null,
        Value::Bool(b) => Json::Bool(*b),
        Value::Number(n) => Json::Number(match (n.as_u64(), n.as_i64()) {
            (Some(n), _) => JsonNumber::Unsigned(n),
            (None, Some(n)) => JsonNumber::Negative(n),
            (None, None) => JsonNumber::Float(n.as_f64().expect("a number").to_bits()),
        }),
        Value::String(s) => Json::Text(s.clone()),
        Value::Array(items) => Json::List(items.iter().map(from_value).collect()),
        Value::Object(members) => {
            let mut map = JsonMap::new();
            for (name, value) in members {
                map.set(name, from_value(value));
            }
            Json::Object(map)
        }
    }
}

/// The member of a value, which must have it.
fn member<'a>(value: &'a Json, name: &str) -> &'a Json {
    value.get(name).expect(name)
}

fn same(a: &Json, b: &Json) -> bool {
    a.same(b)
}

#[test]
fn equality_is_that_of_values() {
    let texts = [
        "null", "true", "0", "1", "-1", "1.0", "0.0", "-0.0", r#""a""#, "[]", "[1]", "{}",
        r#"{"a": 1}"#, r#"{"a": 1, "b": [null]}"#, r#"{"b": [null], "a": 1}"#, r#"{"a": 1.0}"#,
        "18446744073709551615", "-9223372036854775808",
    ];
    for a in texts {
        for b in texts {
            let x: Value = serde_json::from_str(a).unwrap();
            let y: Value = serde_json::from_str(b).unwrap();
            assert_eq!(json(a).same(&json(b)), x == y, "{a} {b}");
            assert_eq!(contains_value(&[json("7"), json(b)], &json(a)), x == y);
        }
    }
}

#[test]
fn values_are_read_as_what_they_are() {
    let texts = ["null", "true", "3", "-3", "3.0", r#""a""#, "[1]", "{}", "18446744073709551615"];
    for text in texts {
        let value: Value = serde_json::from_str(text).unwrap();
        assert_eq!(json(text).as_u64(), value.as_u64(), "{text}");
        assert_eq!(json(text).as_str(), value.as_str());
        assert_eq!(json(text).as_bool(), value.as_bool());
        assert_eq!(json(text).is_object(), value.is_object());
        assert_eq!(json(text).as_list().map(|l| l.len()), value.as_array().map(|l| l.len()));
    }
    assert_eq!(json(r#"{"a": 3}"#).get_u64("a"), Some(3));
    assert_eq!(json(r#"{"a": 3}"#).str_or_empty("a"), "");
    assert!(json("[1]").get("0").is_none());
}

#[test]
fn members_are_set_and_removed() {
    let mut value = json(r#"{"a": 1, "b": 2}"#);
    value.set("a", json("3"));
    value.set("c", json("4"));
    value.remove("b");
    value.remove("d");
    assert!(same(&value, &json(r#"{"c": 4, "a": 3}"#)));
    let mut null = Json::Null;
    null.set("x", json("[]"));
    assert!(same(&null, &json(r#"{"x": []}"#)));
    assert!(same(&null.clone(), &null));
}

#[test]
fn members_are_listed() {
    let value = json(r#"{"b": 2, "a": 1}"#);
    let Json::Object(map) = value else { panic!("object expected") };
    assert_eq!(map.len(), 2);
    let mut names: Vec<&str> = (0..map.len()).map(|i| map.member(i).0.as_str()).collect();
    names.sort();
    assert_eq!(names, ["a", "b"]);
    for i in 0..map.len() {
        let (name, value) = map.member(i);
        assert!(same(map.get(name).unwrap(), value));
    }
}
