//! Applying a range of commits.

use boro::apply::{
    applied_range, apply_header, apply_subject, parse_apply_range, resolved_range, review_hint,
    shell_quote_path, ApplyEvent, ApplyRange, ApplyRun, INTERRUPTED,
};
use boro::json::{Json, JsonMap, JsonNumber};
use serde_json::Value;

/// Reads a value from its text.
fn json(text: &str) -> Json {
    from_value(&serde_json::from_str(text).expect("valid JSON"))
}

fn from_value(value: &Value) -> Json {
    match value {
        Value::Null => Json::Null,
        Value::Bool(b) => Json::Bool(*b),
        Value::Number(n) => Json::Number(match (n.as_u64(), n.as_i64()) {
            (Some(n), _) => JsonNumber::Unsigned(n),
            (None, Some(n)) => JsonNumber::Negative(n),
            (None, None) => JsonNumber::Float(n.as_f64().expect("a number").to_bits()),
        }),
        Value::String(s) => Json::Text(s.clone()),
        Value::Array(items) => Json::List(items.iter().map(from_value).collect()),
        Value::Object(members) => {
            let mut map = JsonMap::new();
            for (name, value) in members {
                map.set(name, from_value(value));
            }
            Json::Object(map)
        }
    }
}

fn same(a: &Json, b: &Json) -> bool {
    a.same(b)
}

#[test]
fn ranges_to_apply() {
    assert!(matches!(parse_apply_range("HEAD"), ApplyRange::Single));
    assert!(matches!(parse_apply_range(""), ApplyRange::Single));
    match parse_apply_range("HEAD~4..HEAD") {
        ApplyRange::Range { base, tip } => assert_eq!((base.as_str(), tip.as_str()), ("HEAD~4", "HEAD")),
        _ => panic!("range expected"),
    }
    match parse_apply_range("a...b") {
        ApplyRange::Range { base, tip } => assert_eq!((base.as_str(), tip.as_str()), ("a", ".b")),
        _ => panic!("range expected"),
    }
    for text in ["..", "a..", "..b", "a..b..c", "a....b"] {
        assert!(matches!(parse_apply_range(text), ApplyRange::Malformed), "{text}");
    }
}

#[test]
fn ends_of_a_range_must_be_commits() {
    assert_eq!(resolved_range("01ab", "CDEF").as_deref(), Some("01ab..CDEF"));
    assert_eq!(resolved_range("01ab", "HEAD"), None);
    assert_eq!(resolved_range("main", "01ab"), None);
}

#[test]
fn applied_range_is_read_back() {
    let applied = applied_range("0123", "4567").unwrap();
    assert_eq!(applied, "0123..4567");
    match parse_apply_range(&applied) {
        ApplyRange::Range { base, tip } => assert_eq!((base.as_str(), tip.as_str()), ("0123", "4567")),
        _ => panic!("range expected"),
    }
    assert_eq!(applied_range("0123", "0123"), None);
}

fn finished(report: &str, code: i32) -> ApplyEvent {
    ApplyEvent::Finished { report: json(report), code }
}

#[test]
fn run_goes_through_its_commits() {
    let mut run = ApplyRun::start(2);
    assert_eq!(run.next_commit(), Some(0));
    run.next(finished("1", 0));
    assert_eq!(run.next_commit(), Some(1));
    run.next(finished("2", 0));
    assert_eq!(run.next_commit(), None);
    assert_eq!(run.exit_code(), 0);
    let report = run.report(true, "a..b", &Some("c..d".to_string()), &None).unwrap();
    assert!(same(
        &report,
        &json(
            r#"{"schema_version": 2, "subcommand": "apply", "range": "a..b",
                "applied_range": "c..d", "commits": [1, 2]}"#
        )
    ));
    assert!(same(&run.report(false, "a", &None, &None).unwrap(), &json("1")));
}

#[test]
fn run_stops_at_a_failure() {
    let mut run = ApplyRun::start(3);
    run.next(finished("1", 0));
    run.next(finished("2", 4));
    assert_eq!(run.next_commit(), None);
    run.next(finished("3", 0));
    assert_eq!(run.exit_code(), 4);
    let report = run.report(true, "a..b", &None, &Some("id@host".to_string())).unwrap();
    assert!(same(
        &report,
        &json(
            r#"{"schema_version": 2, "subcommand": "apply", "range": "a..b",
                "applied_range": null, "commits": [1, 2], "message_id": "id@host"}"#
        )
    ));
}

#[test]
fn run_stops_when_interrupted() {
    let mut run = ApplyRun::start(3);
    run.next(ApplyEvent::Interrupted);
    assert_eq!(run.next_commit(), None);
    assert_eq!(run.exit_code(), INTERRUPTED);
    assert_eq!(run.exit_code(), 130);
    assert!(run.report(false, "a", &None, &None).is_none());
}

#[test]
fn subjects_to_report() {
    let text = |s: &str| Some(s.to_string());
    assert_eq!(apply_subject(text("given"), &text("git")), text("given"));
    assert_eq!(apply_subject(None, &text("  git: x\n")), text("git: x"));
    assert_eq!(apply_subject(None, &text(" \n")), None);
    assert_eq!(apply_subject(None, &None), None);
}

#[test]
fn paths_are_quoted_for_a_shell() {
    assert_eq!(shell_quote_path("/src/linux"), "'/src/linux'");
    assert_eq!(shell_quote_path("it's"), "'it'\"'\"'s'");
    assert_eq!(shell_quote_path(""), "''");
    assert_eq!(
        review_hint("/a b", "1..2"),
        "Review with: boro --source '/a b' review 1..2"
    );
    assert_eq!(apply_header(1, 3, "abc"), "\n[PATCH 2/3] abc");
}
