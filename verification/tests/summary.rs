//! The short summary of a run.

use boro::summary::{
    count_severities, record_summary, resolve_quick_summary_highlights, summary_data, wants_summary,
    QuickSummaryHighlight, QuickSummaryResponse, SeverityCounts, SummaryReply,
};
use boro::usage::TokenUsage;
use boro::json::{Json, JsonMap, JsonNumber};
use serde_json::Value;

/// Reads a value from its text.
fn json(text: &str) -> Json {
    from_value(&serde_json::from_str(text).expect("valid JSON"))
}

fn from_value(value: &Value) -> Json {
    match value {
        Value::Null => Json::Null,
        Value::Bool(b) => Json::Bool(*b),
        Value::Number(n) => Json::Number(match (n.as_u64(), n.as_i64()) {
            (Some(n), _) => JsonNumber::Unsigned(n),
            (None, Some(n)) => JsonNumber::Negative(n),
            (None, None) => JsonNumber::Float(n.as_f64().expect("a number").to_bits()),
        }),
        Value::String(s) => Json::Text(s.clone()),
        Value::Array(items) => Json::List(items.iter().map(from_value).collect()),
        Value::Object(members) => {
            let mut map = JsonMap::new();
            for (name, value) in members {
                map.set(name, from_value(value));
            }
            Json::Object(map)
        }
    }
}

/// The member of a value, which must have it.
fn member<'a>(value: &'a Json, name: &str) -> &'a Json {
    value.get(name).expect(name)
}

fn same(a: &Json, b: &Json) -> bool {
    a.same(b)
}

#[test]
fn quick_summary_resolver_uses_authoritative_metadata_and_filters_refs() {
    let full_sha = "a64709a4a613d3008b63c1c7d20c295bdd1cad49";
    let highlight = |finding_ref: &str, title: &str, question: &str| QuickSummaryHighlight {
        finding_ref: finding_ref.to_string(),
        title: title.to_string(),
        question: question.to_string(),
    };
    // The reply also names a commit, a severity and a location of its own ("model-authored-commit",
    // "Critical", invented.c, line 999, LEFT), which no highlight holds.
    let response = QuickSummaryResponse {
        text: "One issue needs attention.".to_string(),
        highlights: vec![
            highlight(
                &format!("{full_sha}:0"),
                "Notifier callbacks can self-deadlock",
                "Can callbacks re-enter registration?",
            ),
            highlight(
                &format!("{full_sha}:0"),
                "Later duplicate",
                "Should this duplicate be dropped?",
            ),
            highlight(
                "unknown:0",
                "Unknown reference",
                "Should this unknown reference be dropped?",
            ),
        ],
    };
    let commits_data = vec![(
        full_sha.to_string(),
        "dpll: fix notifier locking".to_string(),
        json(
            r#"[{
            "problem": "callback re-entry deadlocks",
            "severity": "Medium",
            "severity_explanation": "lock is held across callbacks",
            "location": {
                "file": "drivers/dpll/dpll_core.c",
                "line": 51,
                "line_end": 54,
                "side": "RIGHT"
            }
        }]"#,
        ),
    )];

    let resolved = resolve_quick_summary_highlights(&response, &commits_data);

    assert_eq!(resolved.len(), 1);
    assert_eq!(resolved[0].get_str("finding_ref"), Some(format!("{full_sha}:0").as_str()));
    assert_eq!(resolved[0].get_str("commit"), Some(full_sha));
    assert_eq!(resolved[0].get_str("severity"), Some("Medium"));
    assert_eq!(
        member(&resolved[0], "location").get_str("file"),
        Some("drivers/dpll/dpll_core.c")
    );
    assert_eq!(member(&resolved[0], "location").get_u64("line"), Some(51));
    assert_eq!(
        resolved[0].get_str("title"),
        Some("Notifier callbacks can self-deadlock")
    );
    assert_eq!(
        resolved[0].get_str("question"),
        Some("Can callbacks re-enter registration?")
    );
}

#[test]
fn quick_summary_resolver_publishes_at_most_three_known_refs() {
    let full_sha = "0123456789abcdef0123456789abcdef01234567";
    let response = QuickSummaryResponse {
        text: "Several issues need attention.".to_string(),
        highlights: (0..4)
            .map(|index| QuickSummaryHighlight {
                finding_ref: format!("{full_sha}:{index}"),
                title: format!("Issue {index}"),
                question: format!("Question {index}?"),
            })
            .collect(),
    };
    let commits_data = vec![(
        full_sha.to_string(),
        "subject".to_string(),
        json(
            r#"[
            {"severity": "Critical"},
            {"severity": "High"},
            {"severity": "Medium"},
            {"severity": "Low"}
        ]"#,
        ),
    )];

    let resolved = resolve_quick_summary_highlights(&response, &commits_data);

    assert_eq!(resolved.len(), 3);
    assert_eq!(resolved[0].get_str("finding_ref"), Some(format!("{full_sha}:0").as_str()));
    assert_eq!(resolved[1].get_str("finding_ref"), Some(format!("{full_sha}:1").as_str()));
    assert_eq!(resolved[2].get_str("finding_ref"), Some(format!("{full_sha}:2").as_str()));
}

#[test]
fn quick_summary_resolver_drops_findings_without_canonical_severity() {
    let full_sha = "fedcba9876543210fedcba9876543210fedcba98";
    let response = QuickSummaryResponse {
        text: "Malformed findings must not become highlights.".to_string(),
        highlights: (0..3)
            .map(|index| QuickSummaryHighlight {
                finding_ref: format!("{full_sha}:{index}"),
                title: format!("Issue {index}"),
                question: format!("Question {index}?"),
            })
            .collect(),
    };
    let commits_data = vec![(
        full_sha.to_string(),
        "subject".to_string(),
        json(
            r#"[
            {"problem": "missing severity"},
            {"problem": "non-string severity", "severity": 2},
            {"problem": "noncanonical severity", "severity": "medium"}
        ]"#,
        ),
    )];

    let resolved = resolve_quick_summary_highlights(&response, &commits_data);

    assert!(resolved.is_empty());
}

fn report() -> Json {
    json(
        r#"{"commits": [
            {"sha": "aa", "subject": "first", "findings": [{"severity": "Low"}],
             "validated_findings": [{"severity": "High"}, {"severity": "odd"}, {"severity": "Critical"}]},
            {"sha": "bb", "dry_run": true, "findings": [{"severity": "Low"}]},
            {"sha": "", "findings": [{"severity": "Low"}]},
            {"sha": "cc", "dry_run": false, "findings": [{"severity": "Medium"}, {"severity": "High"}]},
            {"sha": "dd", "findings": null}
        ]}"#,
    )
}

#[test]
fn severities_are_counted_over_the_chosen_findings() {
    let data = summary_data(&report());
    let names: Vec<&str> = data.iter().map(|c| c.0.as_str()).collect();
    assert_eq!(names, ["aa", "cc", "dd"]);
    assert_eq!(data[0].1, "first");
    let counts = count_severities(&data).unwrap();
    assert_eq!(
        counts,
        SeverityCounts { critical: 1, high: 2, medium: 1, low: 0, total: 5 }
    );
    assert!(wants_summary(&counts));
}

fn summary_of(report: &Json, reply: Option<SummaryReply>) -> Json {
    let data = summary_data(report);
    let counts = count_severities(&data).unwrap();
    let mut out = Json::object();
    record_summary(&mut out, &data, &counts, &reply);
    member(&out, "summary").clone()
}

#[test]
fn summary_without_findings_needs_no_model() {
    let none = summary_of(&json(r#"{"commits": []}"#), None);
    assert_eq!(none.get_str("text"), Some("No commits reviewed."));
    let clean = summary_of(&json(r#"{"commits": [{"sha": "aa", "findings": []}]}"#), None);
    assert_eq!(clean.get_str("text"), Some("No issues found across the reviewed commits."));
    assert!(same(
        &clean,
        &json(
            r#"{"text": "No issues found across the reviewed commits.", "highlights": [],
                "counts": {"Critical": 0, "High": 0, "Medium": 0, "Low": 0}}"#
        )
    ));
}

#[test]
fn summary_falls_back_to_counts() {
    let failed = SummaryReply::Failed { reason: "timeout".to_string(), wall_ms: 9 };
    let summary = summary_of(&report(), Some(failed.clone()));
    assert_eq!(
        summary.get_str("text"),
        Some("Reviewed 3 commit(s); 5 finding(s) recorded.")
    );
    assert_eq!(summary.get_list("highlights").unwrap().len(), 0);
    let step = failed.step();
    assert_eq!(step.get_str("step"), Some("summary"));
    assert_eq!(step.get_str("error"), Some("timeout"));
    assert_eq!(failed.usage(), TokenUsage::none());
}

#[test]
fn invalid_reply_is_recorded_with_its_usage() {
    let usage = TokenUsage { prompt: Some(4), completion: Some(1), cache_creation: None, cache_read: None };
    let reply = SummaryReply::Invalid { reason: "no text".to_string(), usage, wall_ms: 3 };
    assert!(same(
        &reply.step(),
        &json(
            r#"{"step": "summary", "prompt_tokens": 4, "completion_tokens": 1,
                "cache_creation_tokens": null, "cache_read_tokens": null, "api_calls": 1,
                "wall_ms": 3, "error": "invalid quick-summary response: no text"}"#
        )
    ));
    assert_eq!(reply.usage(), usage);
}

#[test]
fn summary_with_a_reply() {
    let usage = TokenUsage::none();
    let response = QuickSummaryResponse {
        text: "Look here.".to_string(),
        highlights: vec![QuickSummaryHighlight {
            finding_ref: "cc:1".to_string(),
            title: "t".to_string(),
            question: "q?".to_string(),
        }],
    };
    let summary = summary_of(&report(), Some(SummaryReply::Answered { response, usage, wall_ms: 1 }));
    assert!(same(
        &summary,
        &json(
            r#"{"text": "Look here.",
                "highlights": [{"finding_ref": "cc:1", "commit": "cc", "severity": "High",
                                "title": "t", "question": "q?"}],
                "counts": {"Critical": 1, "High": 2, "Medium": 1, "Low": 0}}"#
        )
    ));
}
