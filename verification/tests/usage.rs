//! Token usage and how it is summed up.

use boro::usage::{
    append_validation_usage_step, can_sum_steps, commit_usage_json, recorded_validation_steps,
    totals_from_report, usage_step_json, usage_steps_array, usage_summary_json_from_step_values,
    RunTotals, StageUsage, TokenUsage,
};
use boro::json::{Json, JsonMap, JsonNumber};
use serde_json::Value;

/// Reads a value from its text.
fn json(text: &str) -> Json {
    from_value(&serde_json::from_str(text).expect("valid JSON"))
}

fn from_value(value: &Value) -> Json {
    match value {
        Value::Null => Json::Null,
        Value::Bool(b) => Json::Bool(*b),
        Value::Number(n) => Json::Number(match (n.as_u64(), n.as_i64()) {
            (Some(n), _) => JsonNumber::Unsigned(n),
            (None, Some(n)) => JsonNumber::Negative(n),
            (None, None) => JsonNumber::Float(n.as_f64().expect("a number").to_bits()),
        }),
        Value::String(s) => Json::Text(s.clone()),
        Value::Array(items) => Json::List(items.iter().map(from_value).collect()),
        Value::Object(members) => {
            let mut map = JsonMap::new();
            for (name, value) in members {
                map.set(name, from_value(value));
            }
            Json::Object(map)
        }
    }
}

/// The member of a value, which must have it.
fn member<'a>(value: &'a Json, name: &str) -> &'a Json {
    value.get(name).expect(name)
}

fn same(a: &Json, b: &Json) -> bool {
    a.same(b)
}

#[test]
fn json_step_usage_summary_counts_aggregate_step_calls() {
    let steps = vec![
        json(
            r#"{
            "step": "concerns",
            "prompt_tokens": 10,
            "completion_tokens": 2,
            "cache_creation_tokens": null,
            "cache_read_tokens": 3,
            "wall_ms": 1000,
            "error": null
        }"#,
        ),
        json(
            r#"{
            "step": "lkml x3",
            "prompt_tokens": 7,
            "completion_tokens": 5,
            "cache_creation_tokens": 1,
            "cache_read_tokens": null,
            "api_calls": 3,
            "wall_ms": 2000,
            "error": null
        }"#,
        ),
    ];

    let usage = usage_summary_json_from_step_values(&steps);
    assert_eq!(usage.get_u64("api_calls"), Some(4));
    assert_eq!(usage.get_u64("prompt_tokens"), Some(17));
    assert_eq!(usage.get_u64("completion_tokens"), Some(7));
    assert_eq!(usage.get_u64("cache_creation_tokens"), Some(1));
    assert_eq!(usage.get_u64("cache_read_tokens"), Some(3));
}

fn usage(prompt: u32) -> TokenUsage {
    TokenUsage { prompt: Some(prompt), completion: None, cache_creation: Some(2), cache_read: None }
}

#[test]
fn totals_add_up() {
    let mut totals = RunTotals::new();
    totals.add_usage(usage(5));
    totals.add_usage(usage(6));
    let mut other = RunTotals::of_call(usage(7));
    assert!(other.can_merge(&totals));
    other.merge_from(totals);
    assert!(same(
        &other.json(),
        &json(
            r#"{"api_calls": 3, "prompt_tokens": 18, "completion_tokens": 0,
                "cache_creation_tokens": 6, "cache_read_tokens": 0}"#
        )
    ));
    let full = RunTotals { prompt: u64::MAX, ..RunTotals::new() };
    assert!(!full.can_merge(&totals));
}

#[test]
fn usage_of_stages() {
    let stages = vec![
        StageUsage::new("concerns", usage(5), 10, None),
        StageUsage::new("s3", TokenUsage::none(), 20, Some("late".to_string())),
    ];
    assert!(same(
        &usage_steps_array(&stages),
        &json(
            r#"[{"step": "concerns", "prompt_tokens": 5, "completion_tokens": null,
                 "cache_creation_tokens": 2, "cache_read_tokens": null, "wall_ms": 10, "error": null},
                {"step": "s3", "prompt_tokens": null, "completion_tokens": null,
                 "cache_creation_tokens": null, "cache_read_tokens": null, "wall_ms": 20,
                 "error": "late"}]"#
        )
    ));
    let sum = commit_usage_json(&stages);
    assert_eq!(sum.get_u64("api_calls"), Some(2));
    assert_eq!(sum.get_u64("prompt_tokens"), Some(5));
    assert_eq!(sum.get_u64("cache_creation_tokens"), Some(2));
}

#[test]
fn steps_are_appended_to_a_report() {
    let mut out = json("{}");
    append_validation_usage_step(&mut out, "m", usage_step_json("a", usage(5), 1, &None));
    append_validation_usage_step(&mut out, "m2", usage_step_json("b", usage(6), 2, &None));
    let recorded = recorded_validation_steps(&out);
    assert_eq!(recorded.len(), 2);
    assert_eq!(recorded[1].get_str("step"), Some("b"));
    assert!(can_sum_steps(&recorded));
    let validation = member(&out, "validation_usage");
    assert_eq!(validation.get_str("model"), Some("m2"));
    assert_eq!(validation.get_u64("prompt_tokens"), Some(11));
    assert_eq!(validation.get_u64("api_calls"), Some(2));
    assert_eq!(validation.get_u64("wall_ms"), Some(3));
    let huge = vec![
        json(r#"{"prompt_tokens": 18446744073709551615}"#),
        json(r#"{"prompt_tokens": 1}"#),
    ];
    assert!(!can_sum_steps(&huge));
}

#[test]
fn reported_usage_becomes_totals() {
    let totals = totals_from_report(&json(r#"{"api_calls": 4294967297, "prompt_tokens": 3, "cache_read_tokens": "x"}"#));
    assert_eq!(
        totals,
        RunTotals { api_calls: 1, prompt: 3, completion: 0, cache_creation: 0, cache_read: 0 }
    );
}
