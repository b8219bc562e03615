//! When findings are the same, and how lists of them are merged.

use boro::findings::{
    combined_findings, concern_requires_linkage_context, findings_have_same_identity, merge_novel_findings,
    normalized_finding_problem,
};
use boro::json::{Json, JsonMap, JsonNumber};
use serde_json::Value;

/// Reads a value from its text.
fn json(text: &str) -> Json {
    from_value(&serde_json::from_str(text).expect("valid JSON"))
}

fn from_value(value: &Value) -> Json {
    match value {
        Value::Null => Json::Null,
        Value::Bool(b) => Json::Bool(*b),
        Value::Number(n) => Json::Number(match (n.as_u64(), n.as_i64()) {
            (Some(n), _) => JsonNumber::Unsigned(n),
            (None, Some(n)) => JsonNumber::Negative(n),
            (None, None) => JsonNumber::Float(n.as_f64().expect("a number").to_bits()),
        }),
        Value::String(s) => Json::Text(s.clone()),
        Value::Array(items) => Json::List(items.iter().map(from_value).collect()),
        Value::Object(members) => {
            let mut map = JsonMap::new();
            for (name, value) in members {
                map.set(name, from_value(value));
            }
            Json::Object(map)
        }
    }
}

/// The member of a value, which must have it.
fn member<'a>(value: &'a Json, name: &str) -> &'a Json {
    value.get(name).expect(name)
}

/// The value at a place of a list.
fn item(value: &Json, index: usize) -> &Json {
    &value.as_list().expect("a list")[index]
}

fn same(a: &Json, b: &Json) -> bool {
    a.same(b)
}

#[test]
fn exact_regular_duplicate_cannot_replace_fast_provenance() {
    let baseline = vec![json(
        r#"{
        "problem": "is_core_idle is called unnecessarily when has_idle_core is false",
        "severity": "Low",
        "severity_explanation": "The result cannot affect preferred_core.",
        "references": [{
            "kind": "lore",
            "url": "https://lore.kernel.org/all/example/",
            "claim": "The overhead was discussed upstream."
        }],
        "location": {"file": "kernel/sched/fair.c", "line": 8698, "side": "RIGHT"}
    }"#,
    )];
    let regular = vec![json(
        r#"{
        "problem": "IS_CORE_IDLE is called unnecessarily when HAS_IDLE_CORE is false!",
        "severity": "Low",
        "severity_explanation": "preferred_core is true regardless.",
        "location": {"file": "kernel/sched/fair.c", "line": 8698, "side": "RIGHT"}
    }"#,
    )];

    let merged = merge_novel_findings(&baseline, &regular);
    assert_eq!(merged.len(), 1);
    assert_eq!(
        item(member(&merged[0], "references"), 0).get_str("url"),
        Some("https://lore.kernel.org/all/example/")
    );
}

#[test]
fn distinct_same_location_regular_finding_is_appended() {
    let baseline = vec![json(
        r#"{
        "problem": "is_core_idle is called unnecessarily when has_idle_core is false",
        "severity": "Low",
        "severity_explanation": "overhead",
        "location": {"file": "kernel/sched/fair.c", "line": 8698, "side": "RIGHT"}
    }"#,
    )];
    let additions = vec![json(
        r#"{
        "problem": "idle_core is stale after a concurrent topology update",
        "severity": "High",
        "severity_explanation": "the cached state selects an offline sibling",
        "location": {"file": "kernel/sched/fair.c", "line": 8698, "side": "RIGHT"}
    }"#,
    )];

    let merged = merge_novel_findings(&baseline, &additions);

    assert_eq!(merged.len(), 2);
}

#[test]
fn only_configuration_linkage_concerns_request_prefetch_for_consolidation() {
    assert!(concern_requires_linkage_context(&json(
        r#"{
        "category": "configuration-linkage",
        "proof": {
            "failing_config": "CONFIG_FOO=n",
            "caller_condition": "CONFIG_BAR=y",
            "provider_condition": "CONFIG_FOO=y",
            "failure": "undefined reference"
        }
    }"#
    )));
    assert!(concern_requires_linkage_context(&json(
        r#"{
        "proof": { "failure": "undefined reference" }
    }"#
    )));
    assert!(!concern_requires_linkage_context(&json(
        r#"{
        "category": "hardware-architecture",
        "type": "s7:barrier"
    }"#
    )));
    assert!(!concern_requires_linkage_context(&json(
        r#"{
        "type": "s5:race"
    }"#
    )));
}

#[test]
fn problems_are_compared_by_their_words() {
    let words = |problem: &str| {
        normalized_finding_problem(&Json::object().with("problem", Json::text(problem)))
    };
    assert_eq!(words("  Foo->bar(): NULL!! "), "foo bar null");
    assert_eq!(words("snake_case and CamelCase"), "snake_case and camelcase");
    assert_eq!(words("Größe ÄÖ 12"), "größe ÄÖ 12");
    assert_eq!(words("...!"), "");
    assert_eq!(normalized_finding_problem(&json(r#"{"problem": 3}"#)), "");
}

#[test]
fn identity_of_findings() {
    let same_finding =
        |a: &str, b: &str| findings_have_same_identity(&json(a), &json(b));
    // Upstream fixes are told apart by their commits alone.
    assert!(same_finding(
        r#"{"problem": "a", "upstream_fix": {"sha": "1"}}"#,
        r#"{"problem": "b", "upstream_fix": {"sha": "1"}}"#
    ));
    assert!(!same_finding(
        r#"{"problem": "a", "upstream_fix": {"sha": "1"}}"#,
        r#"{"problem": "a", "upstream_fix": {"sha": "2"}}"#
    ));
    // With only one of them, the problem and the location decide.
    assert!(same_finding(
        r#"{"problem": "a", "upstream_fix": {"sha": "1"}}"#,
        r#"{"problem": "A."}"#
    ));
    assert!(!same_finding(
        r#"{"problem": "a", "location": {"line": 1}}"#,
        r#"{"problem": "a"}"#
    ));
    // It goes both ways.
    assert!(same_finding(
        r#"{"problem": "A."}"#,
        r#"{"problem": "a", "upstream_fix": {"sha": "1"}}"#
    ));
    // Problems without words are never the same.
    assert!(!same_finding(r#"{"problem": "!"}"#, r#"{"problem": "!"}"#));
}

#[test]
fn merging_again_adds_nothing() {
    let base = vec![json(r#"{"problem": "one"}"#)];
    let additions =
        vec![json(r#"{"problem": "two"}"#), json(r#"{"problem": "One"}"#), json(r#"{"problem": "TWO"}"#)];
    let once = merge_novel_findings(&base, &additions);
    assert_eq!(once.len(), 2);
    assert!(same(&once[0], &base[0]));
    assert!(same(&once[1], &additions[0]));
    assert_eq!(merge_novel_findings(&once, &additions).len(), 2);
    // A finding that says nothing is not known by any other.
    let silent = vec![json("{}"), json("{}")];
    assert_eq!(merge_novel_findings(&base, &silent).len(), 3);
}

#[test]
fn combined_report_keeps_the_baseline_in_front() {
    let combined = combined_findings(
        &json(r#"{"findings": [{"problem": "a", "severity": "Low"}]}"#),
        &json(r#"{"findings": [{"problem": "A", "severity": "High"}, {"problem": "b"}]}"#),
    );
    assert!(same(
        &combined,
        &json(r#"{"findings": [{"problem": "a", "severity": "Low"}, {"problem": "b"}]}"#)
    ));
    assert!(same(&combined_findings(&Json::Null, &json("[]")), &json(r#"{"findings": []}"#)));
}
