//! The report of one commit.

use boro::commit::{
    commit_outcome, dry_run_report, failed_report, inject_commit_metadata, reviewed_report,
    series_context_for_consolidation, wants_series_subjects, worktree_error, CommitMeta,
};
use boro::options::{CommitAction, ReviewTarget};
use boro::review::CommitReviewResult;
use boro::usage::RunTotals;
use boro::json::{Json, JsonMap, JsonNumber};
use serde_json::Value;

/// Reads a value from its text.
fn json(text: &str) -> Json {
    from_value(&serde_json::from_str(text).expect("valid JSON"))
}

fn from_value(value: &Value) -> Json {
    match value {
        Value::Null => Json::Null,
        Value::Bool(b) => Json::Bool(*b),
        Value::Number(n) => Json::Number(match (n.as_u64(), n.as_i64()) {
            (Some(n), _) => JsonNumber::Unsigned(n),
            (None, Some(n)) => JsonNumber::Negative(n),
            (None, None) => JsonNumber::Float(n.as_f64().expect("a number").to_bits()),
        }),
        Value::String(s) => Json::Text(s.clone()),
        Value::Array(items) => Json::List(items.iter().map(from_value).collect()),
        Value::Object(members) => {
            let mut map = JsonMap::new();
            for (name, value) in members {
                map.set(name, from_value(value));
            }
            Json::Object(map)
        }
    }
}

fn same(a: &Json, b: &Json) -> bool {
    a.same(b)
}

fn meta() -> CommitMeta {
    CommitMeta {
        subject: "net: x".to_string(),
        author: "A".to_string(),
        date: "2026".to_string(),
        parents: vec!["p1".to_string(), "p2".to_string()],
    }
}

#[test]
fn data_of_a_commit_are_added() {
    let report = inject_commit_metadata(
        json(r#"{"sha": "a", "subject": "own"}"#),
        &Some(meta()),
        &Some("diff".to_string()),
        &Some(vec!["f.c".to_string()]),
    );
    assert!(same(
        &report,
        &json(
            r#"{"sha": "a", "subject": "own", "author": "A", "date": "2026", "parents": ["p1", "p2"],
                "patch": "diff", "changed_paths": ["f.c"]}"#
        )
    ));
    let unchanged = inject_commit_metadata(json("[1]"), &Some(meta()), &None, &None);
    assert!(same(&unchanged, &json("[1]")));
    let nothing = inject_commit_metadata(json("{}"), &None, &None, &None);
    assert!(same(&nothing, &json("{}")));
}

#[test]
fn dry_runs_report_sizes() {
    assert!(same(
        &dry_run_report("a", 12, None),
        &json(r#"{"sha": "a", "dry_run": true, "patch_chars": 12, "fast": true}"#)
    ));
    assert!(same(
        &dry_run_report("a", 12, Some(40)),
        &json(r#"{"sha": "a", "dry_run": true, "reference_chars": 40, "patch_chars": 12}"#)
    ));
}

fn result(context: &str, guides: Option<Vec<String>>, steps: Option<Json>) -> CommitReviewResult {
    CommitReviewResult {
        findings_val: Json::Null,
        additional_findings_val: Json::Null,
        baseline_challenges_val: json("[7]"),
        usage_commit: json("{}"),
        usage_steps: steps,
        phase0_selected_prompts: guides,
        validation_context: context.to_string(),
    }
}

#[test]
fn report_of_a_review() {
    let full = reviewed_report(
        "a",
        &json(r#"{"findings": [1]}"#),
        &json(r#"{"findings": [2]}"#),
        &result("ctx", Some(vec!["g".to_string()]), Some(json("[]"))),
    );
    assert!(same(
        &full,
        &json(
            r#"{"sha": "a", "findings": [1], "_additional_findings": [2],
                "_baseline_challenges": [7], "usage": {}, "_validation_context": "ctx",
                "usage_steps": [], "phase0_selected_prompts": ["g"]}"#
        )
    ));
    let bare = reviewed_report("a", &Json::Null, &json("{}"), &result("", Some(vec![]), None));
    assert!(same(
        &bare,
        &json(
            r#"{"sha": "a", "findings": [], "_additional_findings": [],
                "_baseline_challenges": [7], "usage": {}}"#
        )
    ));
}

fn review() -> CommitAction {
    CommitAction::Review {
        target: ReviewTarget::Kernel,
        fast: false,
        no_tools: false,
        max_context_size: 0,
        upstream: String::new(),
        upstream_branch: String::new(),
        fast_review_model: None,
    }
}

#[test]
fn outcome_of_the_work_on_a_commit() {
    let counted = RunTotals { api_calls: 3, prompt: 9, completion: 1, cache_creation: 0, cache_read: 0 };
    let report = json(r#"{"sha": "a", "usage": {"api_calls": 4294967298, "prompt_tokens": 5}}"#);
    // A review counts its calls itself.
    let (value, totals) =
        commit_outcome("a", &review(), Ok(report.clone()), counted, &Some(meta()), &None, &None, 44);
    assert_eq!(totals, counted);
    assert_eq!(value.get_u64("wall_ms"), Some(44));
    assert_eq!(value.get_str("author"), Some("A"));
    // A build reports them; their number has 32 bits.
    let (_, totals) = commit_outcome(
        "a",
        &CommitAction::TestBuild,
        Ok(report),
        RunTotals::new(),
        &None,
        &None,
        &None,
        44,
    );
    assert_eq!((totals.api_calls, totals.prompt), (2, 5));
    // An error is recorded.
    let (value, totals) = commit_outcome(
        "a",
        &CommitAction::TestBuild,
        Err("broken".to_string()),
        RunTotals::new(),
        &None,
        &Some("diff".to_string()),
        &None,
        1,
    );
    assert_eq!(totals, RunTotals::new());
    assert!(same(
        &value,
        &json(r#"{"sha": "a", "findings": [], "error": "broken", "patch": "diff", "wall_ms": 1}"#)
    ));
    assert!(same(
        &failed_report("a", "broken"),
        &json(r#"{"sha": "a", "findings": [], "error": "broken"}"#)
    ));
    assert_eq!(worktree_error("disk full"), "worktree setup failed: disk full");
}

#[test]
fn the_rest_of_the_series() {
    let subjects = Ok("one\ntwo\n \n".to_string());
    assert!(!wants_series_subjects(0, 1) && !wants_series_subjects(2, 3) && wants_series_subjects(1, 3));
    assert_eq!(
        series_context_for_consolidation("a..b", 0, 1, &subjects),
        "Not applicable: only one commit in the review range; there are no later patches in this range to compare against."
    );
    assert_eq!(
        series_context_for_consolidation("a..b", 2, 3, &subjects),
        "Not applicable: this is the last commit in the review range (no subsequent commits in the same range)."
    );
    assert_eq!(
        series_context_for_consolidation("a..b", 0, 3, &subjects),
        "User range: `a..b` (same revision range as this boro run).\n\nPatch subjects in this range (oldest first):\none\ntwo"
    );
    assert_eq!(
        series_context_for_consolidation("a..b", 0, 3, &Ok(" \n".to_string())),
        "Git range `a..b` returned no subjects from `git log --reverse --format=%s` (unexpected)."
    );
    assert_eq!(
        series_context_for_consolidation("a..b", 0, 3, &Err("no git".to_string())),
        "Could not run `git log` for series context on range `a..b`: no git."
    );
}
