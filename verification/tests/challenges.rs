//! Findings that are taken back or withheld.

use boro::challenges::{apply_confirmed_fast_false_positives, without_unverified_sensitive_findings};
use boro::json::{Json, JsonMap, JsonNumber};
use serde_json::Value;

/// Reads a value from its text.
fn json(text: &str) -> Json {
    from_value(&serde_json::from_str(text).expect("valid JSON"))
}

fn from_value(value: &Value) -> Json {
    match value {
        Value::Null => Json::Null,
        Value::Bool(b) => Json::Bool(*b),
        Value::Number(n) => Json::Number(match (n.as_u64(), n.as_i64()) {
            (Some(n), _) => JsonNumber::Unsigned(n),
            (None, Some(n)) => JsonNumber::Negative(n),
            (None, None) => JsonNumber::Float(n.as_f64().expect("a number").to_bits()),
        }),
        Value::String(s) => Json::Text(s.clone()),
        Value::Array(items) => Json::List(items.iter().map(from_value).collect()),
        Value::Object(members) => {
            let mut map = JsonMap::new();
            for (name, value) in members {
                map.set(name, from_value(value));
            }
            Json::Object(map)
        }
    }
}

fn same(a: &Json, b: &Json) -> bool {
    a.same(b)
}

#[test]
fn strong_validator_confirmation_removes_only_the_exact_fast_finding() {
    let fast = [
        json(r#"{"problem": "foo dereferences NULL", "severity": "High"}"#),
        json(r#"{"problem": "bar leaks memory", "severity": "Medium"}"#),
    ];
    let upstream = json(
        r#"{
        "problem": "upstream fixed a third issue",
        "source": "upstream-fixes"
    }"#,
    );
    let mut baseline = Json::List(vec![fast[0].clone(), fast[1].clone(), upstream.clone()]);
    let challenge = json(
        r#"{
        "baseline_id": "fast-0",
        "proof": {
            "finding_claim": "foo dereferences NULL",
            "verified_facts": ["every caller passes a static object"],
            "contradiction": "the argument cannot be NULL",
            "conclusion": "false_positive"
        }
    }"#,
    )
    .with("finding", fast[0].clone());

    let removed = apply_confirmed_fast_false_positives(
        &mut baseline,
        &vec![challenge.clone()],
        &vec![challenge.clone()],
    );

    assert_eq!(removed, 1);
    assert!(same(&baseline, &Json::List(vec![fast[1].clone(), upstream])));
}

#[test]
fn baseline_challenge_cannot_remove_a_finding_without_exact_text_match() {
    let fast = vec![json(r#"{"problem": "foo dereferences NULL", "severity": "High"}"#)];
    let mut baseline = Json::List(fast.clone());
    let challenge = json(
        r#"{
        "baseline_id": "fast-0",
        "finding": {"problem": "foo is probably safe", "severity": "High"},
        "proof": {
            "finding_claim": "foo is probably safe",
            "verified_facts": ["fact"],
            "contradiction": "contradiction",
            "conclusion": "false_positive"
        }
    }"#,
    );

    assert_eq!(
        apply_confirmed_fast_false_positives(
            &mut baseline,
            &vec![challenge.clone()],
            &vec![challenge.clone()],
        ),
        0
    );
    assert!(same(&baseline, &Json::List(fast)));
}

#[test]
fn strong_validator_cannot_invent_an_unproposed_baseline_removal() {
    let fast = vec![json(r#"{"problem": "foo dereferences NULL", "severity": "High"}"#)];
    let mut baseline = Json::List(fast.clone());
    let invented = json(
        r#"{
        "baseline_id": "fast-0",
        "proof": {
            "finding_claim": "foo dereferences NULL",
            "verified_facts": ["every caller passes a static object"],
            "contradiction": "the argument cannot be NULL",
            "conclusion": "false_positive"
        }
    }"#,
    )
    .with("finding", fast[0].clone());

    assert_eq!(
        apply_confirmed_fast_false_positives(&mut baseline, &vec![], &vec![invented]),
        0
    );
    assert!(same(&baseline, &Json::List(fast)));
}

#[test]
fn mandatory_verification_failure_withholds_only_sensitive_findings() {
    let findings = json(
        r#"[{
        "problem": "helper has no caller",
        "severity": "Medium",
        "severity_explanation": "repository lookup required"
    }, {
        "problem": "lock is released twice",
        "severity": "High",
        "severity_explanation": "double unlock on the error path"
    }]"#,
    );

    let (retained, withheld) = without_unverified_sensitive_findings(&findings, &vec![true, false]);
    assert_eq!(withheld, 1);
    assert_eq!(retained.len(), 1);
    assert_eq!(retained[0].get_str("problem"), Some("lock is released twice"));
}

fn challenge_for(id: &str, finding: &Json) -> Json {
    let claim = finding.get_str("problem").unwrap_or("");
    Json::object()
        .with("baseline_id", Json::text(id))
        .with("finding", finding.clone())
        .with("proof", Json::object().with("finding_claim", Json::text(claim)))
}

#[test]
fn only_the_exact_identifier_names_a_finding() {
    let fast = vec![json(r#"{"problem": "a"}"#), json(r#"{"problem": "b"}"#)];
    for id in ["fast-01", "fast-+1", "fast-", "fast-2", "slow-1", "FAST-1", "fast-1 ", "fast-99999999999999999999"] {
        let mut baseline = Json::List(fast.clone());
        let challenges = vec![challenge_for(id, &fast[1])];
        assert_eq!(apply_confirmed_fast_false_positives(&mut baseline, &challenges, &challenges), 0, "{id}");
        assert!(same(&baseline, &Json::List(fast.clone())));
    }
    let mut baseline = Json::List(fast.clone());
    let challenges = vec![challenge_for("fast-1", &fast[1]), challenge_for("fast-1", &fast[1])];
    assert_eq!(apply_confirmed_fast_false_positives(&mut baseline, &challenges, &challenges), 1);
    assert!(same(&baseline, &Json::List(vec![fast[0].clone()])));
}

#[test]
fn fixes_of_upstream_are_never_removed() {
    let fix = json(r#"{"problem": "upstream fixed it", "source": "upstream-fixes"}"#);
    let mut baseline = Json::List(vec![fix.clone()]);
    let challenges = vec![challenge_for("fast-0", &fix)];
    assert_eq!(apply_confirmed_fast_false_positives(&mut baseline, &challenges, &challenges), 0);
    assert!(same(&baseline, &Json::List(vec![fix])));
    // Any other source can be challenged.
    let other = json(r#"{"problem": "found it", "source": "fast"}"#);
    let mut baseline = Json::List(vec![other.clone()]);
    let challenges = vec![challenge_for("fast-0", &other)];
    assert_eq!(apply_confirmed_fast_false_positives(&mut baseline, &challenges, &challenges), 1);
}

#[test]
fn several_challenges_remove_several_findings() {
    let fast: Vec<Json> =
        (0..12).map(|i| Json::object().with("problem", Json::text(&format!("p{i}")))).collect();
    let challenges =
        vec![challenge_for("fast-11", &fast[11]), challenge_for("fast-0", &fast[0]), challenge_for("fast-1", &fast[2])];
    let mut baseline = Json::List(fast.clone());
    assert_eq!(apply_confirmed_fast_false_positives(&mut baseline, &challenges, &challenges), 2);
    assert!(same(&baseline, &Json::List(fast[1..11].to_vec())));
}

#[test]
fn a_baseline_that_is_no_list_is_left_alone() {
    let mut baseline = json(r#"{"findings": []}"#);
    assert_eq!(apply_confirmed_fast_false_positives(&mut baseline, &vec![], &vec![]), 0);
    assert!(same(&baseline, &json(r#"{"findings": []}"#)));
    let (kept, withheld) = without_unverified_sensitive_findings(&Json::Null, &vec![]);
    assert!(kept.is_empty());
    assert_eq!(withheld, 0);
}
