//! The review of one commit.

use boro::review::{
    fast_review_tool_config, specialist_request, Reply, Review, ReviewEvent, ReviewOptions, ReviewStep,
    SpecialistRequest, StepTools, ToolVerification,
};
use boro::upstream::{Followup, MasterFix, UpstreamFollowupResult};
use boro::usage::{StageUsage, TokenUsage};
use boro::json::{Json, JsonMap, JsonNumber};
use serde_json::Value;

/// Reads a value from its text.
fn json(text: &str) -> Json {
    from_value(&serde_json::from_str(text).expect("valid JSON"))
}

fn from_value(value: &Value) -> Json {
    match value {
        Value::Null => Json::Null,
        Value::Bool(b) => Json::Bool(*b),
        Value::Number(n) => Json::Number(match (n.as_u64(), n.as_i64()) {
            (Some(n), _) => JsonNumber::Unsigned(n),
            (None, Some(n)) => JsonNumber::Negative(n),
            (None, None) => JsonNumber::Float(n.as_f64().expect("a number").to_bits()),
        }),
        Value::String(s) => Json::Text(s.clone()),
        Value::Array(items) => Json::List(items.iter().map(from_value).collect()),
        Value::Object(members) => {
            let mut map = JsonMap::new();
            for (name, value) in members {
                map.set(name, from_value(value));
            }
            Json::Object(map)
        }
    }
}

/// The member of a value, which must have it.
fn member<'a>(value: &'a Json, name: &str) -> &'a Json {
    value.get(name).expect(name)
}

/// The value at a place of a list.
fn item(value: &Json, index: usize) -> &Json {
    &value.as_list().expect("a list")[index]
}

fn same(a: &Json, b: &Json) -> bool {
    a.same(b)
}

fn options() -> ReviewOptions {
    ReviewOptions {
        tools: true,
        single_pass: false,
        fast: true,
        has_branch: true,
        lore_active: false,
        touches_comments: false,
        instructed: vec![3, 4, 5, 6, 7, 8],
    }
}

fn usage(prompt: u32) -> TokenUsage {
    TokenUsage { prompt: Some(prompt), completion: Some(1), cache_creation: None, cache_read: None }
}

fn reply(step: &str, parsed: Option<&str>) -> ReviewEvent {
    ReviewEvent::Reply {
        step: step.to_string(),
        reply: Reply {
            error: if parsed.is_some() { None } else { Some("unusable".to_string()) },
            parsed: parsed.map(json),
            usage: usage(100),
            wall_ms: 5,
        },
    }
}

fn followup() -> ReviewEvent {
    ReviewEvent::Followup(Followup::Done {
        result: Some(UpstreamFollowupResult {
            summary: "said".to_string(),
            master_summary: "fixed".to_string(),
            master_fixes: vec![MasterFix {
                sha: "feedbeef".to_string(),
                subject: "fix".to_string(),
                date: "2026".to_string(),
            }],
        }),
        stage: Some(StageUsage::new("followup", TokenUsage::none(), 3, None)),
        called_model: false,
    })
}

/// A review up to its broad pass.
fn before_broad(options: ReviewOptions) -> Review {
    Review::start(options)
        .next(ReviewEvent::Guides {
            guides: Some(vec!["net.md".to_string()]),
            usage: usage(10),
            wall_ms: 2,
        })
        .next(followup())
        .next(ReviewEvent::Context { prefetch: Some("int main;".to_string()) })
        .next(reply("", Some(r#"{"findings": [{"problem": "fast one"}]}"#)))
}

#[test]
fn a_review_by_stages() {
    let mut review = Review::start(options());
    assert_eq!(review.step(), ReviewStep::Subsystem);
    assert_eq!(review.display(), Some((0, 10)));
    assert!(review.published(&Json::Null).is_none());
    review = before_broad(options());
    assert_eq!(review.step(), ReviewStep::Broad);
    assert_eq!(review.tools(), StepTools::On);
    assert_eq!(review.reference_followup().as_deref(), Some("said"));
    assert_eq!(review.complete_reference("ref:"), "ref:int main;");
    assert_eq!(review.guides().unwrap(), &vec!["net.md".to_string()]);
    // The fixes that upstream has come behind the findings of the fast pass.
    let baseline = review.baseline().clone();
    let found = baseline.get_list("findings").unwrap();
    assert_eq!(found.len(), 2);
    assert_eq!(found[0].get_str("problem"), Some("fast one"));
    assert_eq!(member(&found[1], "upstream_fix").get_str("sha"), Some("feedbeef"));
    assert!(same(&review.fast_findings(), &json(r#"[{"problem": "fast one"}]"#)));

    review = review.next(reply("", Some(r#"{"concerns": [{"type": "a"}]}"#)));
    assert_eq!(review.step(), ReviewStep::Repair);
    assert!(same(review.broad(), &json(r#"[{"type": "a"}]"#)));
    assert!(same(&review.published(&Json::Null).unwrap(), &baseline));
    review = review.next(ReviewEvent::Repaired(json(r#"[{"type": "b"}]"#)));
    assert_eq!(review.step(), ReviewStep::Specialist(3));
    assert!(same(review.broad(), &json(r#"[{"type": "b"}]"#)));
    assert_eq!(review.display(), Some((4, 10)));
    assert_eq!(
        review.tools(),
        StepTools::Requiring(ToolVerification::BaselineFalsePositiveProof)
    );
    let shown = review.published(&json(r#"{"findings": [{"problem": "c"}]}"#)).unwrap();
    assert_eq!(shown.get_list("findings").unwrap().len(), 3);

    for stage in 3u8..=7 {
        assert_eq!(review.step(), ReviewStep::Specialist(stage));
        let parsed = format!(
            r#"{{"concerns": [{{"type": "s{stage}"}}], "baseline_false_positives": [{stage}]}}"#
        );
        review = if stage == 5 {
            review.next(reply("s5", None))
        } else {
            review.next(reply(&format!("s{stage}"), Some(&parsed)))
        };
    }
    // The patch touches no comments, so the last specialist is not asked.
    assert_eq!(review.step(), ReviewStep::Consolidate);
    assert_eq!(review.display(), Some((10, 10)));
    assert_eq!(review.tools(), StepTools::Off);
    assert_eq!(review.consolidation_context(), "");
    assert_eq!(review.concerns().as_list().unwrap().len(), 5);
    // A reply that is not waited for changes nothing.
    review = review.next(ReviewEvent::Repaired(json("[]")));
    assert_eq!(review.step(), ReviewStep::Consolidate);
    review = review.next(reply("", Some(r#"{"findings": [{"problem": "merged"}]}"#)));
    assert_eq!(review.step(), ReviewStep::Done);
    let shown = review.published(&json(r#"{"findings": [{"problem": "c"}]}"#)).unwrap();
    assert_eq!(item(member(&shown, "findings"), 2).get_str("problem"), Some("merged"));
    assert_eq!(review.totals().api_calls, 9);
    assert_eq!(review.totals().prompt, 810);
    assert_eq!(review.usage_steps().as_list().unwrap().len(), 10);

    let result = review.finish().unwrap();
    assert!(same(&result.findings_val, &baseline));
    assert!(same(&result.additional_findings_val, &json(r#"{"findings": [{"problem": "merged"}]}"#)));
    assert!(same(&result.baseline_challenges_val, &json("[3, 4, 6, 7]")));
    assert_eq!(result.validation_context, "int main;");
    assert_eq!(result.phase0_selected_prompts, Some(vec!["net.md".to_string()]));
    let steps = result.usage_steps.unwrap();
    let names: Vec<&str> =
        steps.as_list().unwrap().iter().map(|s| s.get_str("step").unwrap()).collect();
    assert_eq!(
        names,
        ["subsystem", "followup", "fast-review", "concerns", "s3", "s4", "s5", "s6", "s7", "consolidation"]
    );
    assert_eq!(item(&steps, 6).get_str("error"), Some("unusable"));
    assert_eq!(result.usage_commit.get_u64("api_calls"), Some(10));
    assert_eq!(result.usage_commit.get_u64("prompt_tokens"), Some(810));
}

#[test]
fn a_review_without_concerns_is_not_consolidated() {
    let mut review = before_broad(ReviewOptions { instructed: vec![8, 4], ..options() })
        .next(reply("", None))
        .next(ReviewEvent::Repaired(json("[]")));
    assert_eq!(review.step(), ReviewStep::Specialist(4));
    review = review.next(reply("s4", Some("{}")));
    assert_eq!(review.step(), ReviewStep::Done);
    let result = review.finish().unwrap();
    assert!(same(&result.additional_findings_val, &json(r#"{"findings": []}"#)));
}

#[test]
fn concerns_stand_in_for_an_unusable_consolidation() {
    let mut review = before_broad(ReviewOptions { instructed: vec![], ..options() })
        .next(reply("", Some(r#"{"concerns": [{"type": "a"}]}"#)))
        .next(ReviewEvent::Repaired(json(r#"[{"proof": 1}]"#)));
    assert_eq!(review.step(), ReviewStep::Consolidate);
    assert_eq!(review.consolidation_context(), "int main;");
    review = review.next(reply("", None));
    assert_eq!(review.step(), ReviewStep::Fallback);
    let shown = review.published(&json(r#"{"findings": [{"problem": "c"}]}"#)).unwrap();
    assert_eq!(shown.get_list("findings").unwrap().len(), 2);
    assert!(same(&review.concerns(), &json(r#"[{"proof": 1}]"#)));
    review = review.next(ReviewEvent::Fallback(json(r#"{"findings": [{"problem": "kept"}]}"#)));
    let result = review.finish().unwrap();
    assert!(same(&result.additional_findings_val, &json(r#"{"findings": [{"problem": "kept"}]}"#)));
}

#[test]
fn without_tools_no_challenge_counts() {
    let mut review =
        before_broad(ReviewOptions { tools: false, instructed: vec![7, 8], touches_comments: true, ..options() })
            .next(reply("", None))
            .next(ReviewEvent::Repaired(json("[]")));
    assert_eq!(review.tools(), StepTools::Off);
    assert_eq!(
        review.specialist(),
        Some(SpecialistRequest {
            with_prefetch: true,
            with_concerns: true,
            linkage_form: true,
            verification: None,
            display_step: 8,
        })
    );
    review = review.next(reply("s7", Some(r#"{"baseline_false_positives": [1]}"#)));
    assert_eq!(review.step(), ReviewStep::Specialist(8));
    review = review.next(reply("s8", Some(r#"{"baseline_false_positives": [1]}"#)));
    let result = review.finish().unwrap();
    assert!(same(&result.baseline_challenges_val, &json("[]")));
}

#[test]
fn what_specialists_are_asked_for() {
    let both = specialist_request(7, true, 2);
    assert_eq!(
        both.verification,
        Some(ToolVerification::Stage7LinkageAndBaselineFalsePositiveProof)
    );
    assert_eq!(specialist_request(7, true, 0).verification, Some(ToolVerification::Stage7Linkage));
    assert_eq!(
        specialist_request(3, true, 1).verification,
        Some(ToolVerification::BaselineFalsePositiveProof)
    );
    assert_eq!(specialist_request(3, true, 0).verification, Some(ToolVerification::Optional));
    let comments = specialist_request(8, true, 0);
    assert!(!comments.with_concerns && !comments.with_prefetch && !comments.linkage_form);
    assert_eq!(comments.display_step, 9);
}

#[test]
fn guides_can_fail_without_stopping_the_review() {
    let lonely = ReviewOptions { has_branch: false, fast: false, ..options() };
    let review = Review::start(lonely.clone()).next(ReviewEvent::GuidesFailed { reason: "down".to_string() });
    assert_eq!(review.step(), ReviewStep::Context);
    assert_eq!(review.totals().api_calls, 0);
    let review = Review::start(lonely.clone()).next(ReviewEvent::Guides {
        guides: None,
        usage: usage(10),
        wall_ms: 2,
    });
    // The call counts, though no stage is recorded.
    assert_eq!(review.totals().api_calls, 1);
    let review = review.next(ReviewEvent::Context { prefetch: None });
    assert_eq!(review.step(), ReviewStep::Broad);
    assert!(same(review.baseline(), &json(r#"{"findings": []}"#)));
    assert_eq!(review.prefetch(), "");
    let review = Review::start(lonely).next(ReviewEvent::NoSubsystemIndex);
    assert_eq!(review.step(), ReviewStep::Context);
    assert!(review.finish().is_none());
}

#[test]
fn a_failed_fast_pass_leaves_an_empty_baseline() {
    let review = Review::start(ReviewOptions { has_branch: false, ..options() })
        .next(ReviewEvent::NoSubsystemIndex)
        .next(ReviewEvent::Context { prefetch: None });
    assert_eq!(review.step(), ReviewStep::Fast);
    assert_eq!(
        review.tools(),
        StepTools::Requiring(ToolVerification::SensitiveFindings)
    );
    let review = review.next(reply("", None));
    assert!(same(review.baseline(), &json(r#"{"findings": []}"#)));
}

#[test]
fn a_review_in_one_pass() {
    let single = ReviewOptions { single_pass: true, ..options() };
    let review = Review::start(single)
        .next(ReviewEvent::Guides { guides: Some(vec![]), usage: usage(10), wall_ms: 2 })
        .next(followup());
    assert_eq!(review.display(), None);
    assert_eq!(review.reference_followup().as_deref(), Some("saidfixed"));
    let review = review.next(ReviewEvent::Context { prefetch: None });
    assert_eq!(review.step(), ReviewStep::SinglePass);
    assert_eq!(review.display(), Some((2, 2)));
    let review = review.next(ReviewEvent::SinglePass {
        review: "looks wrong".to_string(),
        usage: usage(50),
        wall_ms: 9,
    });
    assert_eq!(review.step(), ReviewStep::Done);
    assert_eq!(review.totals().prompt, 60);
    let report = review.finish_single("abc").unwrap();
    assert_eq!(report.get_str("sha"), Some("abc"));
    assert_eq!(report.get_str("_fast_review"), Some("looks wrong"));
    assert_eq!(member(&report, "fast").as_bool(), Some(true));
    assert_eq!(report.get_list("findings").unwrap().len(), 0);
    assert_eq!(report.get_list("usage_steps").unwrap().len(), 3);
    assert_eq!(member(&report, "usage").get_u64("prompt_tokens"), Some(60));
    assert!(report.get("phase0_selected_prompts").is_none());
}

#[test]
fn fast_requires_repository_verification_for_sensitive_findings() {
    let cfg = fast_review_tool_config(".", false).unwrap();
    assert_eq!(cfg.verification, ToolVerification::SensitiveFindings);
}

#[test]
fn fast_review_without_tools_has_no_tool_config() {
    assert!(fast_review_tool_config(".", true).is_none());
    assert_eq!(fast_review_tool_config("/repo", false).unwrap().repo, "/repo");
}
