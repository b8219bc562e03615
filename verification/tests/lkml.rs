//! The prose that is written for each commit.

use boro::lkml::{
    lkml_label, lkml_step, lkml_totals, lkml_work, record_lkml, LkmlReply, LkmlResult, LkmlWork,
};
use boro::usage::TokenUsage;
use boro::json::{Json, JsonMap, JsonNumber};
use serde_json::Value;

/// Reads a value from its text.
fn json(text: &str) -> Json {
    from_value(&serde_json::from_str(text).expect("valid JSON"))
}

fn from_value(value: &Value) -> Json {
    match value {
        Value::Null => Json::Null,
        Value::Bool(b) => Json::Bool(*b),
        Value::Number(n) => Json::Number(match (n.as_u64(), n.as_i64()) {
            (Some(n), _) => JsonNumber::Unsigned(n),
            (None, Some(n)) => JsonNumber::Negative(n),
            (None, None) => JsonNumber::Float(n.as_f64().expect("a number").to_bits()),
        }),
        Value::String(s) => Json::Text(s.clone()),
        Value::Array(items) => Json::List(items.iter().map(from_value).collect()),
        Value::Object(members) => {
            let mut map = JsonMap::new();
            for (name, value) in members {
                map.set(name, from_value(value));
            }
            Json::Object(map)
        }
    }
}

fn same(a: &Json, b: &Json) -> bool {
    a.same(b)
}

#[test]
fn what_the_prose_is_made_from() {
    assert!(matches!(lkml_work(&json(r#"{"findings": [1]}"#)), LkmlWork::Unnamed));
    assert!(matches!(lkml_work(&json(r#"{"sha": "a", "findings": []}"#)), LkmlWork::NoIssues));
    assert!(matches!(lkml_work(&json(r#"{"sha": "a"}"#)), LkmlWork::NoIssues));
    assert!(matches!(
        lkml_work(&json(r#"{"sha": "a", "findings": [1], "validated_findings": []}"#)),
        LkmlWork::NoIssues
    ));
    match lkml_work(&json(r#"{"sha": "a", "findings": [1, 2], "validated_findings": [2]}"#)) {
        LkmlWork::Findings(report) => assert!(same(&report, &json(r#"{"findings": [2]}"#))),
        _ => panic!("findings expected"),
    }
    // Something that is no list is still written about.
    match lkml_work(&json(r#"{"sha": "a", "validated_findings": null}"#)) {
        LkmlWork::Findings(report) => assert!(same(&report, &json(r#"{"findings": null}"#))),
        _ => panic!("findings expected"),
    }
    match lkml_work(&json(r#"{"sha": "a", "findings": [], "_fast_review": " text "}"#)) {
        LkmlWork::Review(review) => assert_eq!(review, " text "),
        _ => panic!("review expected"),
    }
    assert!(matches!(
        lkml_work(&json(r#"{"sha": "a", "findings": [], "_fast_review": " \n"}"#)),
        LkmlWork::NoIssues
    ));
}

fn usage() -> TokenUsage {
    TokenUsage { prompt: Some(10), completion: Some(4), cache_creation: None, cache_read: Some(1) }
}

fn text(body: &str) -> LkmlReply {
    LkmlReply::Text { text: body.to_string(), usage: usage(), wall_ms: 6 }
}

fn failed() -> LkmlReply {
    LkmlReply::Failed { reason: "down".to_string(), wall_ms: 7 }
}

#[test]
fn what_is_recorded_for_a_commit() {
    let none = LkmlWork::Unnamed.without_model(0);
    assert!(none.body.is_none() && none.stage.is_none());
    let clean = LkmlWork::NoIssues.without_model(1);
    assert_eq!(clean.body.as_deref(), Some("No issues found."));
    assert!(clean.stage.is_none());
    let work = LkmlWork::Review("one pass".to_string());
    assert!(work.asks_model());
    let written = work.clone().replied(2, text("prose"));
    assert_eq!(written.body.as_deref(), Some("prose"));
    assert_eq!(written.stage.unwrap().usage, usage());
    let stands_in = work.replied(2, failed());
    assert_eq!(stands_in.body.as_deref(), Some("one pass"));
    assert_eq!(stands_in.stage.unwrap().error.as_deref(), Some("down"));
    let lost = LkmlWork::Findings(Json::Null).replied(3, failed());
    assert!(lost.body.is_none());
    assert_eq!(lost.stage.unwrap().wall_ms, 7);
}

#[test]
fn prose_is_recorded_in_any_order() {
    let report = json(r#"{"commits": [{"sha": "a"}, {"sha": "b"}, {"sha": "c"}]}"#);
    let work = LkmlWork::Findings(Json::Null);
    let results = vec![
        work.clone().replied(2, text("third")),
        LkmlWork::NoIssues.without_model(0),
        work.clone().replied(1, failed()),
    ];
    let mut out = report.clone();
    record_lkml(&mut out, &results);
    assert!(same(
        &out,
        &json(
            r#"{"commits": [{"sha": "a", "lkml_report": "No issues found."}, {"sha": "b"},
                            {"sha": "c", "lkml_report": "third"}]}"#
        )
    ));
    let mut other = report;
    let reversed: Vec<LkmlResult> = results.iter().rev().cloned().collect();
    record_lkml(&mut other, &reversed);
    assert!(same(&out, &other));
    assert_eq!(lkml_totals(&results), lkml_totals(&reversed));
}

#[test]
fn prose_touches_only_the_commits_that_get_some() {
    let mut out = json(r#"{"commits": [7, {"sha": "b"}]}"#);
    record_lkml(
        &mut out,
        &vec![LkmlWork::Unnamed.without_model(0), LkmlWork::NoIssues.without_model(1)],
    );
    assert!(same(
        &out,
        &json(r#"{"commits": [7, {"sha": "b", "lkml_report": "No issues found."}]}"#)
    ));
    let mut without = json(r#"{"commits": null}"#);
    record_lkml(&mut without, &vec![]);
    assert!(same(&without, &json(r#"{"commits": null}"#)));
}

#[test]
fn usage_of_the_prose() {
    let work = LkmlWork::Findings(Json::Null);
    assert!(lkml_step(&vec![LkmlWork::NoIssues.without_model(0)], 4).is_none());
    let one = lkml_step(&vec![work.clone().replied(0, text("x"))], 4).unwrap();
    assert!(same(
        &one,
        &json(
            r#"{"step": "lkml", "prompt_tokens": 10, "completion_tokens": 4,
                "cache_creation_tokens": 0, "cache_read_tokens": 1, "api_calls": 1, "wall_ms": 4,
                "error": null}"#
        )
    ));
    let three = vec![
        work.clone().replied(0, text("x")),
        work.clone().replied(1, failed()),
        LkmlWork::NoIssues.without_model(2),
        work.replied(3, text("y")),
    ];
    let step = lkml_step(&three, 4).unwrap();
    assert_eq!(step.get_str("step"), Some("lkml x3"));
    assert_eq!(step.get_u64("prompt_tokens"), Some(20));
    assert_eq!(
        step.get_str("error"),
        Some("1 LKML render call(s) failed; see per-commit LKML text")
    );
    assert_eq!(lkml_totals(&three).api_calls, 3);
}

#[test]
fn label_has_the_short_name() {
    assert_eq!(lkml_label("0123456789abcdef"), "[lkml] 0123456789ab");
    assert_eq!(lkml_label("0123"), "[lkml] 0123");
}
