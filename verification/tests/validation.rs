//! The validation of a run's findings.

use boro::options::ValidationMode;
use boro::usage::TokenUsage;
use boro::validation::{
    batch_label, collect_payloads, skip_validation, validation_step, Validation,
};
use boro::json::{Json, JsonMap, JsonNumber};
use serde_json::Value;

/// Reads a value from its text.
fn json(text: &str) -> Json {
    from_value(&serde_json::from_str(text).expect("valid JSON"))
}

fn from_value(value: &Value) -> Json {
    match value {
        Value::Null => Json::Null,
        Value::Bool(b) => Json::Bool(*b),
        Value::Number(n) => Json::Number(match (n.as_u64(), n.as_i64()) {
            (Some(n), _) => JsonNumber::Unsigned(n),
            (None, Some(n)) => JsonNumber::Negative(n),
            (None, None) => JsonNumber::Float(n.as_f64().expect("a number").to_bits()),
        }),
        Value::String(s) => Json::Text(s.clone()),
        Value::Array(items) => Json::List(items.iter().map(from_value).collect()),
        Value::Object(members) => {
            let mut map = JsonMap::new();
            for (name, value) in members {
                map.set(name, from_value(value));
            }
            Json::Object(map)
        }
    }
}

/// The member of a value, which must have it.
fn member<'a>(value: &'a Json, name: &str) -> &'a Json {
    value.get(name).expect(name)
}

/// The value at a place of a list.
fn item(value: &Json, index: usize) -> &Json {
    &value.as_list().expect("a list")[index]
}

fn same(a: &Json, b: &Json) -> bool {
    a.same(b)
}

const PATCH: &str = "--- a/foo.c\n+++ b/foo.c\n@@ -1 +1,2 @@\n context\n+added\n";

fn commit() -> Json {
    json(
        r#"{
        "sha": "0123456789abcdef", "subject": "net: x",
        "findings": [{"problem": "fast a"}, {"problem": "fast b"}],
        "_additional_findings": [{"problem": "extra"}, {"problem": "helper has no caller"}],
        "_baseline_challenges": [{
            "baseline_id": "fast-0", "finding": {"problem": "fast a"},
            "proof": {"finding_claim": "fast a"}
        }],
        "_validation_context": "ctx"
    }"#,
    )
    .with("patch", Json::text(PATCH))
}

fn run(commits: Vec<Json>) -> Json {
    Json::object().with("commits", Json::List(commits))
}

/// The commit of a run of one commit after the validation.
fn conclude(validation: &Validation, no_tools: bool) -> Json {
    let mut out = run(vec![commit()]);
    assert!(validation.can_conclude(&out));
    validation.conclude(&mut out, &vec![vec![false, true]], no_tools, ValidationMode::Filter);
    assert_eq!(out.get_str("validation_mode"), Some("filter"));
    item(member(&out, "commits"), 0).clone()
}

fn problems(commit: &Json, name: &str) -> Vec<String> {
    let list = commit.get_list(name).expect(name);
    list.iter().map(|f| f.get_str("problem").unwrap().to_string()).collect()
}

#[test]
fn payloads_of_a_run() {
    let out = run(vec![
        commit(),
        json(r#"{"sha": "aa", "findings": [1]}"#),
        json(r#"{"sha": "", "_additional_findings": [1]}"#),
        json(r#"{"sha": "bb", "_baseline_challenges": [1]}"#),
    ]);
    let payloads = collect_payloads(&out);
    assert_eq!(payloads.len(), 2);
    assert_eq!(payloads[0].sha, "0123456789ab");
    assert_eq!(payloads[0].full_sha, "0123456789abcdef");
    assert_eq!(payloads[0].subject, "net: x");
    assert_eq!(payloads[0].reference_context, "ctx");
    assert_eq!(payloads[0].diff, PATCH);
    assert_eq!(payloads[0].findings.as_list().unwrap().len(), 2);
    assert_eq!(payloads[1].sha, "bb");
    assert_eq!(payloads[1].subject, "");
    assert!(same(&payloads[1].baseline_findings, &json("[]")));
    assert!(same(&payloads[1].baseline_challenges, &json("[1]")));
    assert!(collect_payloads(&Json::Null).is_empty());
}

#[test]
fn nothing_to_validate_takes_the_findings_over() {
    let mut out = run(vec![json(r#"{"sha": "a", "findings": [1]}"#), json("{}")]);
    skip_validation(&mut out, ValidationMode::Findings);
    assert!(same(
        &out,
        &json(
            r#"{"validation_mode": "findings", "commits": [
                {"sha": "a", "findings": [1], "validated_findings": [1]},
                {"validated_findings": []}
            ]}"#
        )
    ));
    let mut empty = Json::object();
    skip_validation(&mut empty, ValidationMode::Filter);
    assert!(same(&empty, &json(r#"{"commits": null, "validation_mode": "filter"}"#)));
}

#[test]
fn reply_decides_on_additions_and_challenges() {
    let mut validation = Validation::new();
    let reply = json(
        r#"{"commits": [{
            "sha": "0123456789ab",
            "findings": [
                {"problem": "extra", "location": {"file": "foo.c", "line": 2}},
                {"problem": "new", "location": {"file": "foo.c", "line": 77}},
                {"problem": "Fast B!"}
            ],
            "confirmed_false_positives": [{
                "baseline_id": "fast-0", "finding": {"problem": "fast a"},
                "proof": {"finding_claim": "fast a"}
            }]
        }, {"findings": []}]}"#,
    );
    validation.batch_replied(&Some(reply), false, &vec!["0123456789ab".to_string()]);
    let after = conclude(&validation, false);
    assert_eq!(problems(&after, "findings"), ["fast b"]);
    assert_eq!(problems(&after, "validated_findings"), ["fast b", "extra", "new"]);
    let validated = after.get_list("validated_findings").unwrap();
    assert!(validated[1].get("location").is_some());
    assert!(validated[2].get("location").is_none());
    // Without tools no challenge is confirmed.
    let after = conclude(&validation, true);
    assert_eq!(problems(&after, "findings"), ["fast a", "fast b"]);
    assert_eq!(problems(&after, "validated_findings"), ["fast a", "fast b", "extra", "new"]);
}

#[test]
fn reply_under_the_full_name_counts_and_a_later_one_replaces_it() {
    let mut validation = Validation::new();
    let shas = vec!["0123456789ab".to_string()];
    let first = json(r#"{"commits": [{"sha": "0123456789abcdef", "findings": [{"problem": "one"}]}]}"#);
    validation.batch_replied(&Some(first), false, &shas);
    assert_eq!(
        problems(&conclude(&validation, false), "validated_findings"),
        ["fast a", "fast b", "one"]
    );
    let second = json(r#"{"commits": [{"sha": "0123456789abcdef", "findings": [{"problem": "two"}]}]}"#);
    validation.batch_replied(&Some(second), false, &shas);
    assert_eq!(
        problems(&conclude(&validation, false), "validated_findings"),
        ["fast a", "fast b", "two"]
    );
    let short = json(r#"{"commits": [{"sha": "0123456789ab", "findings": []}]}"#);
    validation.batch_replied(&Some(short), false, &shas);
    assert_eq!(problems(&conclude(&validation, false), "validated_findings"), ["fast a", "fast b"]);
}

#[test]
fn failed_batch_keeps_raw_additions() {
    let mut validation = Validation::new();
    validation.batch_replied(&None, false, &vec!["0123456789ab".to_string()]);
    let after = conclude(&validation, false);
    assert_eq!(problems(&after, "findings"), ["fast a", "fast b"]);
    assert_eq!(
        problems(&after, "validated_findings"),
        ["fast a", "fast b", "extra", "helper has no caller"]
    );
}

#[test]
fn missing_checks_withhold_sensitive_additions() {
    let mut validation = Validation::new();
    validation.batch_replied(&None, true, &vec!["0123456789ab".to_string()]);
    let after = conclude(&validation, false);
    assert_eq!(problems(&after, "validated_findings"), ["fast a", "fast b", "extra"]);
    // A reply outweighs the failure.
    let reply = json(r#"{"commits": [{"sha": "0123456789ab", "findings": [{"problem": "x"}]}]}"#);
    validation.batch_replied(&Some(reply), true, &vec![]);
    assert_eq!(
        problems(&conclude(&validation, false), "validated_findings"),
        ["fast a", "fast b", "x"]
    );
}

#[test]
fn commit_without_a_name_is_left_alone() {
    let mut out = run(vec![json(r#"{"findings": [1]}"#), json("7")]);
    Validation::new().conclude(&mut out, &vec![vec![], vec![]], false, ValidationMode::Filter);
    assert!(same(member(&out, "commits"), &json(r#"[{"findings": [1]}, 7]"#)));
    // A commit without findings gets a member for them.
    let mut out = run(vec![json(r#"{"sha": "aa"}"#)]);
    Validation::new().conclude(&mut out, &vec![vec![]], false, ValidationMode::Filter);
    assert!(same(
        member(&out, "commits"),
        &json(r#"[{"sha": "aa", "findings": null, "validated_findings": []}]"#)
    ));
}

#[test]
fn only_patches_with_a_reply_must_be_countable() {
    let patch = "--- a/f\n+++ b/f\n@@ -0,0 +18446744073709551615,2 @@\n+x\n";
    let odd = json(r#"{"sha": "aa", "findings": []}"#).with("patch", Json::text(patch));
    let mut out = run(vec![odd]);
    let mut validation = Validation::new();
    assert!(validation.can_conclude(&out));
    validation.conclude(&mut out, &vec![vec![]], false, ValidationMode::Filter);
    let reply = json(r#"{"commits": [{"sha": "aa", "findings": []}]}"#);
    validation.batch_replied(&Some(reply), false, &vec![]);
    assert!(!validation.can_conclude(&out));
}

#[test]
fn steps_and_labels_of_batches() {
    let step = validation_step(2, 3, TokenUsage::none(), 8, &Some("too large".to_string()));
    assert!(same(
        &step,
        &json(
            r#"{"step": "findings-2/3", "prompt_tokens": null, "completion_tokens": null,
                "cache_creation_tokens": null, "cache_read_tokens": null, "api_calls": 1,
                "wall_ms": 8, "error": "too large"}"#
        )
    ));
    assert_eq!(
        batch_label(ValidationMode::Filter, 2, 3),
        "[validation:filter] Validating findings batch 2/3"
    );
}
