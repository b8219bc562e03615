//! What happened upstream to a commit.

use boro::findings::findings_have_same_identity;
use boro::upstream::{
    append_upstream_fix_findings, short_sha10, BranchFixes, Followup, FollowupEvent, MasterFix,
    UpstreamFollowupResult,
};
use boro::usage::TokenUsage;
use boro::json::{Json, JsonMap, JsonNumber};
use serde_json::Value;

/// Reads a value from its text.
fn json(text: &str) -> Json {
    from_value(&serde_json::from_str(text).expect("valid JSON"))
}

fn from_value(value: &Value) -> Json {
    match value {
        Value::Null => Json::Null,
        Value::Bool(b) => Json::Bool(*b),
        Value::Number(n) => Json::Number(match (n.as_u64(), n.as_i64()) {
            (Some(n), _) => JsonNumber::Unsigned(n),
            (None, Some(n)) => JsonNumber::Negative(n),
            (None, None) => JsonNumber::Float(n.as_f64().expect("a number").to_bits()),
        }),
        Value::String(s) => Json::Text(s.clone()),
        Value::Array(items) => Json::List(items.iter().map(from_value).collect()),
        Value::Object(members) => {
            let mut map = JsonMap::new();
            for (name, value) in members {
                map.set(name, from_value(value));
            }
            Json::Object(map)
        }
    }
}

/// The member of a value, which must have it.
fn member<'a>(value: &'a Json, name: &str) -> &'a Json {
    value.get(name).expect(name)
}

/// The value at a place of a list.
fn item(value: &Json, index: usize) -> &Json {
    &value.as_list().expect("a list")[index]
}

fn same(a: &Json, b: &Json) -> bool {
    a.same(b)
}

#[test]
fn upstream_fixes_become_high_severity_findings() {
    let fixes = vec![MasterFix {
        sha: "0123456789abcdef".to_string(),
        subject: "net: fix later regression".to_string(),
        date: "2026-06-01T00:00:00+00:00".to_string(),
    }];
    let mut findings = json(r#"{ "findings": [] }"#);

    let added = append_upstream_fix_findings(&mut findings, &fixes);

    assert_eq!(added, 1);
    let f = item(member(&findings, "findings"), 0);
    assert_eq!(f.get_str("severity"), Some("High"));
    assert_eq!(f.get_str("source"), Some("upstream-fixes"));
    assert_eq!(member(f, "upstream_fix").get_str("sha"), Some("0123456789abcdef"));
    assert!(f
        .get_str("problem")
        .unwrap()
        .contains("net: fix later regression"));
}

#[test]
fn normal_review_hides_deterministic_master_fixes_from_one_shot_input() {
    let followup = UpstreamFollowupResult {
        summary: "lore discussion\n".to_string(),
        master_summary: "deterministic upstream fix\n".to_string(),
        master_fixes: Vec::new(),
    };

    assert_eq!(followup.review_context(false), "lore discussion\n");
    assert_eq!(
        followup.review_context(true),
        "lore discussion\ndeterministic upstream fix\n"
    );
}

fn fix() -> MasterFix {
    MasterFix {
        sha: "0123456789abcdef".to_string(),
        subject: "net: fix it".to_string(),
        date: "2026".to_string(),
    }
}

#[test]
fn finding_of_a_fix_in_full() {
    let mut report = json(r#"{"findings": "none", "x": 1}"#);
    assert_eq!(append_upstream_fix_findings(&mut report, &vec![fix()]), 1);
    assert!(same(
        &report,
        &json(
            r#"{"x": 1, "findings": [{
                "problem": "The reviewed commit has an upstream follow-up fix: 0123456789 net: fix it.",
                "severity": "High",
                "severity_explanation": "The configured upstream branch contains commit 0123456789abcdef with a Fixes: trailer naming this reviewed commit. This is high-confidence evidence that upstream later corrected a regression introduced here.",
                "source": "upstream-fixes",
                "upstream_fix": {"sha": "0123456789abcdef", "subject": "net: fix it", "date": "2026"}
            }]}"#
        )
    ));
    let mut unchanged = json("[1]");
    assert_eq!(append_upstream_fix_findings(&mut unchanged, &vec![]), 0);
    assert!(same(&unchanged, &json("[1]")));
    assert_eq!(append_upstream_fix_findings(&mut unchanged, &vec![fix(), fix()]), 2);
    assert_eq!(unchanged.get_list("findings").unwrap().len(), 2);
}

#[test]
fn fixes_are_told_apart_by_their_commits() {
    let finding = |sha: &str| {
        let mut report = json(r#"{"findings": []}"#);
        append_upstream_fix_findings(&mut report, &vec![MasterFix { sha: sha.to_string(), ..fix() }]);
        item(member(&report, "findings"), 0).clone()
    };
    assert!(findings_have_same_identity(&finding("0123456789abcdef"), &finding("0123456789abcdef")));
    assert!(!findings_have_same_identity(&finding("0123456789abcdef"), &finding("0123456789aaaaaa")));
}

#[test]
fn short_names_of_commits() {
    assert_eq!(short_sha10("0123456789abcdef"), "0123456789");
    assert_eq!(short_sha10("0123"), "0123");
    assert_eq!(short_sha10("éééééééééééé"), "éééééééééé");
}

fn found() -> BranchFixes {
    BranchFixes { fixes: vec![fix()], summary: "one fix".to_string() }
}

fn subject(text: &str) -> FollowupEvent {
    FollowupEvent::Subject { subject: Some(text.to_string()), wall_ms: 1 }
}

#[test]
fn followup_is_skipped_without_a_subject() {
    for event in [
        FollowupEvent::Subject { subject: None, wall_ms: 1 },
        subject(" \t "),
    ] {
        let state = Followup::start(true, true).next(event);
        assert!(matches!(
            state,
            Followup::Done { result: None, stage: None, called_model: false }
        ));
    }
}

#[test]
fn followup_without_the_mailing_list_reports_the_branch() {
    let state = Followup::start(true, false)
        .next(subject("net: x"))
        .next(FollowupEvent::Branch { found: Some(found()), wall_ms: 7 });
    match state {
        Followup::Done { result: Some(result), stage: Some(stage), called_model: false } => {
            assert_eq!(result.summary, "");
            assert_eq!(result.master_summary, "one fix");
            assert_eq!(result.master_fixes.len(), 1);
            assert_eq!(stage.step, "followup");
            assert_eq!(stage.wall_ms, 7);
            assert_eq!(stage.error, None);
        }
        _ => panic!("unexpected end"),
    }
    let nothing = Followup::start(true, false)
        .next(subject("net: x"))
        .next(FollowupEvent::Branch { found: None, wall_ms: 7 });
    assert!(matches!(nothing, Followup::Done { result: None, stage: Some(_), called_model: false }));
}

#[test]
fn followup_without_a_branch_goes_to_the_mailing_list() {
    let state = Followup::start(false, true).next(subject("net: x"));
    assert!(matches!(state, Followup::Lore { .. }));
    let quiet = state.clone().next(FollowupEvent::LoreAnswered {
        messages: 0,
        no_activity: "nothing said".to_string(),
        wall_ms: 2,
    });
    match quiet {
        Followup::Done { result: Some(result), called_model: false, .. } => {
            assert_eq!(result.summary, "nothing said");
        }
        _ => panic!("unexpected end"),
    }
    let failed = state.next(FollowupEvent::LoreFailed { reason: "no lei".to_string(), wall_ms: 2 });
    match failed {
        Followup::Done { result: None, stage: Some(stage), called_model: false } => {
            assert_eq!(stage.error.as_deref(), Some("no lei"));
        }
        _ => panic!("unexpected end"),
    }
}

#[test]
fn followup_asks_the_model_about_messages() {
    let usage = TokenUsage { prompt: Some(10), completion: Some(2), cache_creation: None, cache_read: None };
    let state = Followup::start(true, true)
        .next(subject("net: x"))
        .next(FollowupEvent::Branch { found: Some(found()), wall_ms: 1 })
        .next(FollowupEvent::LoreAnswered { messages: 3, no_activity: String::new(), wall_ms: 2 });
    assert!(matches!(state, Followup::Model { .. }));
    // An event that is not waited for changes nothing.
    let state = state.next(subject("again"));
    assert!(matches!(state, Followup::Model { .. }));
    let answered = state.clone().next(FollowupEvent::Model {
        summary: Some("they agreed".to_string()),
        usage,
        wall_ms: 30,
        error: None,
    });
    match answered {
        Followup::Done { result: Some(result), stage: Some(stage), called_model: true } => {
            assert_eq!(result.summary, "they agreed");
            assert_eq!(result.master_fixes.len(), 1);
            assert_eq!(stage.usage, usage);
            assert_eq!(stage.wall_ms, 30);
        }
        _ => panic!("unexpected end"),
    }
    let unusable = state.next(FollowupEvent::Model {
        summary: None,
        usage,
        wall_ms: 30,
        error: Some("bad JSON".to_string()),
    });
    match unusable {
        Followup::Done { result: Some(result), stage: Some(stage), called_model: true } => {
            assert_eq!(result.summary, "");
            assert_eq!(result.master_fixes.len(), 1);
            assert_eq!(stage.error.as_deref(), Some("bad JSON"));
        }
        _ => panic!("unexpected end"),
    }
}
