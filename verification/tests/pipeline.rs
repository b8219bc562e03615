//! Findings on their way from a review to the report of a run.

use boro::anchors::MessageConcernRepair;
use boro::commit::report_review;
use boro::options::ValidationMode;
use boro::review::{Reply, Review, ReviewEvent, ReviewOptions};
use boro::run::{strip_handoffs, take_raw_additions};
use boro::usage::TokenUsage;
use boro::validation::Validation;
use boro::json::{Json, JsonMap, JsonNumber};
use serde_json::Value;

/// Reads a value from its text.
fn json(text: &str) -> Json {
    from_value(&serde_json::from_str(text).expect("valid JSON"))
}

fn from_value(value: &Value) -> Json {
    match value {
        Value::Null => Json::Null,
        Value::Bool(b) => Json::Bool(*b),
        Value::Number(n) => Json::Number(match (n.as_u64(), n.as_i64()) {
            (Some(n), _) => JsonNumber::Unsigned(n),
            (None, Some(n)) => JsonNumber::Negative(n),
            (None, None) => JsonNumber::Float(n.as_f64().expect("a number").to_bits()),
        }),
        Value::String(s) => Json::Text(s.clone()),
        Value::Array(items) => Json::List(items.iter().map(from_value).collect()),
        Value::Object(members) => {
            let mut map = JsonMap::new();
            for (name, value) in members {
                map.set(name, from_value(value));
            }
            Json::Object(map)
        }
    }
}

/// The member of a value, which must have it.
fn member<'a>(value: &'a Json, name: &str) -> &'a Json {
    value.get(name).expect(name)
}

/// The value at a place of a list.
fn item(value: &Json, index: usize) -> &Json {
    &value.as_list().expect("a list")[index]
}

const PATCH: &str = "--- a/foo.c\n+++ b/foo.c\n@@ -1 +1,2 @@\n context\n+added\n";

fn reply(parsed: &str) -> ReviewEvent {
    ReviewEvent::Reply {
        step: "s".to_string(),
        reply: Reply { parsed: Some(json(parsed)), usage: TokenUsage::none(), wall_ms: 0, error: None },
    }
}

/// The report of a commit whose review found two things in the fast pass and two more by stages.
fn reviewed() -> Json {
    let options = ReviewOptions {
        tools: true,
        single_pass: false,
        fast: true,
        has_branch: false,
        lore_active: false,
        touches_comments: false,
        instructed: vec![],
    };
    let review = Review::start(options)
        .next(ReviewEvent::NoSubsystemIndex)
        .next(ReviewEvent::Context { prefetch: None })
        .next(reply(
            r#"{"findings": [
                {"problem": "fast a", "location": {"file": "foo.c", "line": 2}},
                {"problem": "fast b", "location": {"file": "foo.c", "line": 9}}
            ]}"#,
        ))
        .next(reply(r#"{"concerns": [{"type": "x"}]}"#))
        .next(ReviewEvent::Repaired(json(r#"[{"type": "x"}]"#)))
        .next(reply(r#"{"findings": [{"problem": "Fast A", "location": {"file": "foo.c", "line": 2}}, {"problem": "more"}]}"#));
    let result = review.finish().unwrap();
    let unrepaired = |report: Json| (report, MessageConcernRepair { relocated: 0, dropped: 0 });
    let (report, done) = report_review("abc", &result, PATCH, &["foo.c".to_string()], &unrepaired);
    assert_eq!(done, MessageConcernRepair { relocated: 0, dropped: 0 });
    report.with("patch", Json::text(PATCH))
}

fn problems(commit: &Json, name: &str) -> Vec<String> {
    let list = commit.get_list(name).expect(name);
    list.iter().map(|f| f.get_str("problem").unwrap().to_string()).collect()
}

#[test]
fn fast_findings_are_reported_without_a_reply() {
    let mut out = Json::object().with("commits", Json::List(vec![reviewed()]));
    let mut validation = Validation::new();
    validation.batch_replied(&None, false, &vec!["abc".to_string()]);
    validation.conclude(&mut out, &vec![vec![false, false]], false, ValidationMode::Filter);
    strip_handoffs(&mut out);
    let commit = item(member(&out, "commits"), 0);
    assert_eq!(problems(commit, "validated_findings"), ["fast a", "fast b", "more"]);
    let list = commit.get_list("validated_findings").unwrap();
    assert!(list[0].get("location").is_some());
    assert!(list[1].get("location").is_none());
    assert!(commit.get("_additional_findings").is_none());
}

#[test]
fn fast_findings_are_reported_without_a_validation() {
    let mut out = Json::object().with("commits", Json::List(vec![reviewed()]));
    take_raw_additions(&mut out);
    strip_handoffs(&mut out);
    let commit = item(member(&out, "commits"), 0);
    assert_eq!(problems(commit, "findings"), ["fast a", "fast b", "more"]);
}

#[test]
fn both_reports_are_repaired_and_held_to_the_patch() {
    let commit = reviewed();
    assert!(item(member(&commit, "findings"), 0).get("location").is_some());
    assert!(item(member(&commit, "findings"), 1).get("location").is_none());
    assert_eq!(problems(&commit, "_additional_findings"), ["Fast A", "more"]);
}
