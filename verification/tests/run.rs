//! A whole run and what it is asked to do.

use boro::options::{
    patch_series_tag, stage_progress_line, validation_header, verbose_worker_line_prefix, Backend,
    BackendArg, CommitAction, ResolvedModel, ReviewTarget, TargetArg, TestSelection, TestTarget,
    ValidationMode,
};
use boro::run::{
    check_tree, collapse_plan, exit_code, fetches_upstream, finish_report, header_model,
    needs_strong_model, needs_vng, order_reports, phase_list, phases, plan_run, repo_tools_text, review_target,
    run_report, set_fast_model, shows_rows, strip_handoffs, strip_single_reviews, sum_used,
    take_raw_additions, use_worktree, worker_count, Phases, RunCommand, RunInfo, RunPhase, TreeCheck,
};
use boro::usage::RunTotals;
use boro::json::{Json, JsonMap, JsonNumber};
use serde_json::Value;

/// Reads a value from its text.
fn json(text: &str) -> Json {
    from_value(&serde_json::from_str(text).expect("valid JSON"))
}

fn from_value(value: &Value) -> Json {
    match value {
        Value::Null => Json::Null,
        Value::Bool(b) => Json::Bool(*b),
        Value::Number(n) => Json::Number(match (n.as_u64(), n.as_i64()) {
            (Some(n), _) => JsonNumber::Unsigned(n),
            (None, Some(n)) => JsonNumber::Negative(n),
            (None, None) => JsonNumber::Float(n.as_f64().expect("a number").to_bits()),
        }),
        Value::String(s) => Json::Text(s.clone()),
        Value::Array(items) => Json::List(items.iter().map(from_value).collect()),
        Value::Object(members) => {
            let mut map = JsonMap::new();
            for (name, value) in members {
                map.set(name, from_value(value));
            }
            Json::Object(map)
        }
    }
}

/// The member of a value, which must have it.
fn member<'a>(value: &'a Json, name: &str) -> &'a Json {
    value.get(name).expect(name)
}

/// The value at a place of a list.
fn item(value: &Json, index: usize) -> &Json {
    &value.as_list().expect("a list")[index]
}

fn same(a: &Json, b: &Json) -> bool {
    a.same(b)
}

fn review_command(fast: bool, mode: ValidationMode) -> RunCommand {
    RunCommand::Review {
        target: TargetArg::Qemu,
        fast,
        no_tools: true,
        max_context_size: 1000,
        validation_mode: mode,
        upstream: "uri".to_string(),
        upstream_branch: "master".to_string(),
        range: "a..b".to_string(),
    }
}

fn review(fast: bool) -> CommitAction {
    plan_run(review_command(fast, ValidationMode::Filter)).action
}

fn boot(plan_only: bool) -> CommitAction {
    plan_run(RunCommand::TestBoot {
        timeout_secs: 300,
        plan_only,
        config: None,
        range: Some("a..b".to_string()),
    })
    .action
}

#[test]
fn reviews_are_planned() {
    let plan = plan_run(review_command(false, ValidationMode::Findings));
    assert_eq!(plan.selector, "a..b");
    assert_eq!(plan.default_workers, 8);
    assert_eq!(plan.validation_mode, ValidationMode::Findings);
    assert!(plan.action.is_review() && plan.action.review_no_tools() && !plan.action.review_fast());
    assert_eq!(review_target(&plan.action), ReviewTarget::Qemu);
    // A review in one pass is not validated.
    let plan = plan_run(review_command(true, ValidationMode::Findings));
    assert_eq!(plan.validation_mode, ValidationMode::Off);
    assert!(plan.action.review_fast());
}

#[test]
fn builds_and_tests_are_planned() {
    let plan = plan_run(RunCommand::TestBuild { range: "x".to_string() });
    assert_eq!(plan.default_workers, 1);
    assert_eq!(plan.validation_mode, ValidationMode::Off);
    assert_eq!(plan.action.label(), "build");
    assert!(plan.action.uses_commit_metadata());
    assert_eq!(review_target(&plan.action), ReviewTarget::Kernel);
    let plan = plan_run(RunCommand::TestBoot {
        timeout_secs: 9,
        plan_only: false,
        config: Some((
            "CONFIG_FOO".to_string(),
            TestTarget {
                selection: TestSelection::Config("CONFIG_FOO".to_string()),
                uses_commit_metadata: false,
            },
        )),
        range: Some("ignored".to_string()),
    });
    assert_eq!(plan.selector, "CONFIG_FOO");
    assert!(!plan.action.uses_commit_metadata());
    match plan.action {
        CommitAction::TestBoot { timeout_secs, plan_only, target } => {
            assert_eq!(timeout_secs, 9);
            assert!(!plan_only && target.is_config());
        }
        _ => panic!("test expected"),
    }
}

#[test]
fn what_an_action_needs() {
    let build = CommitAction::TestBuild;
    assert!(needs_vng(&build) && needs_vng(&boot(false)));
    assert!(!needs_vng(&boot(true)) && !needs_vng(&review(false)));
    assert!(use_worktree(&review(true), false) && !use_worktree(&review(true), true));
    assert!(use_worktree(&boot(false), false) && !use_worktree(&boot(true), false));
    assert!(needs_strong_model(&review(false)));
    assert!(!needs_strong_model(&review(true)) && !needs_strong_model(&build));
    // Only reviews of the kernel look at the upstream branch.
    assert!(!fetches_upstream(&review(false), false));
    let mut kernel = review(false);
    if let CommitAction::Review { target, .. } = &mut kernel {
        *target = ReviewTarget::Kernel;
    }
    assert!(fetches_upstream(&kernel, false) && !fetches_upstream(&kernel, true));
    assert!(!fetches_upstream(&build, false));
}

#[test]
fn source_trees_are_compared_with_the_target() {
    assert_eq!(check_tree(&review(false), Some(ReviewTarget::Qemu)), TreeCheck::Matches);
    assert_eq!(
        check_tree(&review(false), Some(ReviewTarget::Kernel)),
        TreeCheck::LooksLike(ReviewTarget::Kernel)
    );
    assert_eq!(check_tree(&review(false), None), TreeCheck::Unknown);
    assert_eq!(
        check_tree(&CommitAction::TestBuild, Some(ReviewTarget::Qemu)),
        TreeCheck::NotReviewed
    );
}

#[test]
fn strong_model_is_named_only_if_it_differs() {
    let strong = ResolvedModel { model_id: "big".to_string(), base_url: String::new() };
    assert_eq!(header_model("small", &Some(strong.clone())).as_deref(), Some("big"));
    assert_eq!(header_model("big", &Some(strong.clone())), None);
    assert_eq!(header_model("big", &None), None);
    match set_fast_model(review(false), Some(strong)) {
        CommitAction::Review { fast_review_model: Some(model), .. } => assert_eq!(model.model_id, "big"),
        _ => panic!("model expected"),
    }
}

#[test]
fn use_of_tools_is_logged() {
    let build = CommitAction::TestBuild;
    assert_eq!(
        repo_tools_text(&build, Backend::Codex, "codex"),
        "n/a (build/test do not call repo tools)"
    );
    assert_eq!(
        repo_tools_text(&review(false), Backend::Codex, "codex"),
        "delegated to codex CLI (boro tool sandbox bypassed)"
    );
    // The name that is given matters for one backend only.
    assert_eq!(
        repo_tools_text(&review(false), Backend::Opencode, "codex"),
        "delegated to opencode CLI (boro tool sandbox bypassed)"
    );
    assert_eq!(
        repo_tools_text(&review(false), Backend::Claude, "given"),
        "delegated to given CLI (boro tool sandbox bypassed)"
    );
    assert_eq!(repo_tools_text(&review(false), Backend::OpenAi, "openai"), "disabled (--no-tools)");
    let mut tooled = review(false);
    if let CommitAction::Review { no_tools, .. } = &mut tooled {
        *no_tools = false;
    }
    assert!(repo_tools_text(&tooled, Backend::OpenAi, "openai").starts_with("enabled (grep_repo, "));
}

#[test]
fn plans_for_a_range_are_made_together() {
    let shas = vec!["a".to_string(), "b".to_string()];
    let (action, left) = collapse_plan(boot(true), shas.clone(), "x..y", true);
    assert_eq!(left, ["range"]);
    match action {
        CommitAction::TestBoot { plan_only: true, target, .. } => match target.selection {
            TestSelection::CommitRange { range, commits } => {
                assert_eq!(range, "x..y");
                assert_eq!(commits, shas);
            }
            _ => panic!("range expected"),
        },
        _ => panic!("test expected"),
    }
    let (_, left) = collapse_plan(boot(false), shas.clone(), "x..y", true);
    assert_eq!(left, shas);
    let (_, left) = collapse_plan(boot(true), vec!["a".to_string()], "x..y", true);
    assert_eq!(left, ["a"]);
    let (_, left) = collapse_plan(review(false), shas.clone(), "x..y", true);
    assert_eq!(left, shas);
}

#[test]
fn workers_and_rows() {
    assert_eq!(worker_count(None, 8), 8);
    assert_eq!(worker_count(Some(3), 8), 3);
    assert_eq!(worker_count(Some(0), 8), 1);
    assert!(shows_rows(2, 2) && !shows_rows(1, 2) && !shows_rows(2, 1));
}

#[test]
fn phases_of_runs() {
    let all = phases(&review(false), ValidationMode::Filter, false, false);
    assert_eq!(
        all,
        Phases { validation: true, raw_additions: false, prose: true, summary: true }
    );
    let findings = phases(&review(false), ValidationMode::Findings, false, false);
    assert!(findings.validation && !findings.prose && findings.summary);
    let off = phases(&review(false), ValidationMode::Off, false, false);
    assert!(!off.validation && off.raw_additions && off.prose && off.summary);
    let fast = phases(&review(true), ValidationMode::Off, false, false);
    assert!(fast.raw_additions && fast.prose && !fast.summary);
    let nothing = Phases { validation: false, raw_additions: false, prose: false, summary: false };
    assert_eq!(phases(&review(false), ValidationMode::Filter, true, false), nothing);
    assert_eq!(phases(&review(false), ValidationMode::Filter, false, true), nothing);
    assert_eq!(phases(&CommitAction::TestBuild, ValidationMode::Off, false, false), nothing);
}

#[test]
fn phases_come_in_their_order() {
    let all = phases(&review(false), ValidationMode::Filter, false, false);
    assert_eq!(
        phase_list(all),
        [
            RunPhase::Validate,
            RunPhase::StripHandoffs,
            RunPhase::WriteProse,
            RunPhase::StripSingleReviews,
            RunPhase::Summarize,
        ]
    );
    let fast = phases(&review(true), ValidationMode::Off, false, true);
    assert_eq!(phase_list(fast), [RunPhase::TakeRawAdditions, RunPhase::StripHandoffs]);
}

fn used(prompt: u64) -> RunTotals {
    RunTotals { api_calls: 1, prompt, completion: 0, cache_creation: 0, cache_read: 0 }
}

#[test]
fn reports_are_put_in_order() {
    let finished = vec![(2, json("2"), used(20)), (0, json("0"), used(5))];
    let partial = vec![(json("10"), used(1)), (json("11"), used(2)), (json("12"), used(3))];
    let reports = order_reports(&finished, &partial, 3);
    let values: Vec<u64> = reports.iter().map(|r| r.0.as_u64().unwrap()).collect();
    assert_eq!(values, [0, 11, 2]);
    let totals = sum_used(&reports).unwrap();
    assert_eq!((totals.api_calls, totals.prompt), (3, 27));
    let only_finished = order_reports(&finished, &vec![], 3);
    assert_eq!(only_finished.len(), 2);
    assert!(sum_used(&vec![(Json::Null, used(u64::MAX)), (Json::Null, used(1))]).is_none());
}

fn info(cancelled: bool) -> RunInfo {
    RunInfo {
        range: "a..b".to_string(),
        model_id: "m".to_string(),
        verbose: true,
        validation_mode: ValidationMode::Filter,
        cancelled,
    }
}

#[test]
fn report_of_a_run() {
    let mut out = run_report(&info(true), &review(false), vec![json("{}")]);
    assert!(same(
        &out,
        &json(
            r#"{"schema_version": 1, "range": "a..b", "subcommand": "review", "model": "m",
                "verbose": true, "commits": [{}], "validation_mode": "filter", "cancelled": true}"#
        )
    ));
    let build = run_report(&info(false), &CommitAction::TestBuild, vec![]);
    assert!(build.get("validation_mode").is_none() && build.get("cancelled").is_none());
    finish_report(&mut out, &used(7), 12);
    assert_eq!(out.get_u64("wall_ms"), Some(12));
    assert!(same(
        member(&out, "usage_summary"),
        &json(
            r#"{"api_calls": 1, "prompt_tokens": 7, "completion_tokens": 0,
                "cache_creation_tokens": 0, "cache_read_tokens": 0}"#
        )
    ));
    assert_eq!((exit_code(true), exit_code(false)), (130, 0));
}

#[test]
fn raw_additions_follow_the_findings() {
    let mut out = json(
        r#"{"commits": [{
            "sha": "a", "findings": [{"problem": "x"}],
            "_additional_findings": [{"problem": "X"}, {"problem": "y"}],
            "_validation_context": "c", "_baseline_challenges": [], "_fast_review": "r"
        }, null]}"#,
    );
    take_raw_additions(&mut out);
    assert!(same(
        member(item(member(&out, "commits"), 0), "findings"),
        &json(r#"[{"problem": "x"}, {"problem": "y"}]"#)
    ));
    strip_handoffs(&mut out);
    assert!(same(
        member(&out, "commits"),
        &json(
            r#"[{"sha": "a", "findings": [{"problem": "x"}, {"problem": "y"}], "_fast_review": "r"},
                {"findings": []}]"#
        )
    ));
    strip_single_reviews(&mut out);
    assert!(item(member(&out, "commits"), 0).get("_fast_review").is_none());
}

#[test]
fn command_line_names_are_mapped() {
    assert_eq!(BackendArg::Openai.to_config(), Backend::OpenAi);
    assert_eq!(BackendArg::Claude.to_config(), Backend::Claude);
    assert_eq!(BackendArg::Opencode.to_config(), Backend::Opencode);
    assert_eq!(BackendArg::Codex.to_config(), Backend::Codex);
    assert_eq!(TargetArg::Kernel.to_config(), ReviewTarget::Kernel);
    assert_eq!(TargetArg::Qemu.to_config(), ReviewTarget::Qemu);
    assert_eq!(
        [ValidationMode::Off, ValidationMode::Filter, ValidationMode::Findings].map(|m| m.label()),
        ["off", "filter", "findings"]
    );
}

#[test]
fn labels_of_commits_and_stages() {
    assert_eq!(patch_series_tag(2, 10), "[PATCH 2/10]");
    assert_eq!(
        verbose_worker_line_prefix(2, 10, "0123456789abcdef"),
        "[PATCH 2/10] 0123456789]"
    );
    assert_eq!(
        stage_progress_line("[PATCH 1/1]", "abc", 3, 10, "Broad concerns"),
        "[PATCH 1/1] abc [step 3/10] Broad concerns"
    );
    let model = ResolvedModel { model_id: "big".to_string(), base_url: String::new() };
    assert_eq!(
        validation_header(true, &model, ValidationMode::Filter),
        "validation: mode=filter model=big base_url=(n/a) (differs from main)"
    );
    assert_eq!(
        validation_header(false, &model, ValidationMode::Findings),
        "validation: mode=findings (reusing main model + endpoint)"
    );
}
