//! The report of one commit: what is recorded of it, whatever was done with it.

use vstd::prelude::*;
use crate::anchors::{MessageConcernRepair, cleanup_repair_and_validate_findings, is_repaired};
use crate::diff_index::line_numbers_fit;
use crate::json::{Json, JsonView, field, number, takes_members, text_list, with_field};
use crate::options::CommitAction;
use crate::review::{CommitReviewResult, add_guides, with_guides};
use crate::text::{
    chars_of, copy_text, is_empty, opt_text, push_text, string_of, texts, trim_end,
    trim_end_chars,
};
use crate::usage::{Counts, RunTotals, no_counts, reported_counts, totals_from_report};

verus! {

// ---------------------------------------------------------------------------------------------
// The data of a commit
// ---------------------------------------------------------------------------------------------

/// What git records of a commit.
#[derive(Debug, Clone)]
pub struct CommitMeta {
    pub subject: String,
    pub author: String,
    pub date: String,
    pub parents: Vec<String>,
}

/// An object with a member set if it has none of that name; anything else as it is.
pub open spec fn with_missing(v: JsonView, name: Seq<char>, x: JsonView) -> JsonView {
    if v is Object && field(v, name) is None {
        with_field(v, name, x)
    } else {
        v
    }
}

/// A report with the data of its commit, as far as they are known. What the report has already
/// stays.
pub open spec fn with_metadata(
    report: JsonView,
    meta: Option<CommitMeta>,
    patch: Option<Seq<char>>,
    changed: Option<Seq<Seq<char>>>,
) -> JsonView {
    let report = match meta {
        Some(meta) => with_missing(
            with_missing(
                with_missing(
                    with_missing(report, "subject"@, JsonView::Text(meta.subject@)),
                    "author"@,
                    JsonView::Text(meta.author@),
                ),
                "date"@,
                JsonView::Text(meta.date@),
            ),
            "parents"@,
            text_list(texts(meta.parents@)),
        ),
        None => report,
    };
    let report = match patch {
        Some(patch) => with_missing(report, "patch"@, JsonView::Text(patch)),
        None => report,
    };
    match changed {
        Some(changed) => with_missing(report, "changed_paths"@, text_list(changed)),
        None => report,
    }
}

fn set_missing(report: &mut Json, name: &str, value: Json)
    ensures
        final(report)@ == with_missing(old(report)@, name@, value@),
{
    if report.is_object() && report.get(name).is_none() {
        report.set(name, value);
    }
}

/// Adds the data of a commit to its report. What the report has already stays.
pub fn inject_commit_metadata(
    report: Json,
    meta: &Option<CommitMeta>,
    patch: &Option<String>,
    changed: &Option<Vec<String>>,
) -> (r: Json)
    ensures
        r@ == with_metadata(
            report@,
            *meta,
            opt_text(*patch),
            match changed {
                Some(changed) => Some(texts(changed@)),
                None => None,
            },
        ),
{
    let mut report = report;
    if let Some(meta) = meta {
        set_missing(&mut report, "subject", Json::text(meta.subject.as_str()));
        set_missing(&mut report, "author", Json::text(meta.author.as_str()));
        set_missing(&mut report, "date", Json::text(meta.date.as_str()));
        set_missing(&mut report, "parents", Json::text_list(meta.parents.as_slice()));
    }
    if let Some(patch) = patch {
        set_missing(&mut report, "patch", Json::text(patch.as_str()));
    }
    if let Some(changed) = changed {
        set_missing(&mut report, "changed_paths", Json::text_list(changed.as_slice()));
    }
    report
}

/// Adding the data of a commit changes no member that the report had.
pub proof fn lemma_metadata_keeps_members(
    report: JsonView,
    meta: Option<CommitMeta>,
    patch: Option<Seq<char>>,
    changed: Option<Seq<Seq<char>>>,
    name: Seq<char>,
)
    requires
        field(report, name) is Some,
    ensures
        field(with_metadata(report, meta, patch, changed), name) == field(report, name),
{
}

/// Every report that is an object has the subject, the author, the date and the parents of its
/// commit afterwards if these are known, and likewise the patch and the changed paths.
pub proof fn lemma_metadata_is_there(
    report: JsonView,
    meta: Option<CommitMeta>,
    patch: Option<Seq<char>>,
    changed: Option<Seq<Seq<char>>>,
)
    requires
        report is Object,
    ensures
        ({
            let after = with_metadata(report, meta, patch, changed);
            &&& meta is Some ==> {
                &&& field(after, "subject"@) is Some
                &&& field(after, "author"@) is Some
                &&& field(after, "date"@) is Some
                &&& field(after, "parents"@) is Some
            }
            &&& patch is Some ==> field(after, "patch"@) is Some
            &&& changed is Some ==> field(after, "changed_paths"@) is Some
        }),
{
}

// ---------------------------------------------------------------------------------------------
// Reports
// ---------------------------------------------------------------------------------------------

/// The report of a commit on which the work failed.
pub open spec fn failed_value(sha: Seq<char>, error: Seq<char>) -> JsonView {
    JsonView::Object(
        Map::empty().insert("sha"@, JsonView::Text(sha)).insert(
            "findings"@,
            JsonView::List(Seq::empty()),
        ).insert("error"@, JsonView::Text(error)),
    )
}

pub fn failed_report(sha: &str, error: &str) -> (r: Json)
    ensures
        r@ == failed_value(sha@, error@),
{
    Json::object().with("sha", Json::text(sha)).with("findings", Json::empty_list()).with(
        "error",
        Json::text(error),
    )
}

/// The error of a commit for which no working tree could be set up.
pub fn worktree_error(reason: &str) -> (r: String)
    ensures
        r@ == "worktree setup failed: "@ + reason@,
{
    let mut r = copy_text("worktree setup failed: ");
    push_text(&mut r, reason);
    r
}

/// The report of a commit that was only sized up. A review by stages also sizes up its reference.
pub open spec fn dry_run_value(
    sha: Seq<char>,
    patch_chars: nat,
    reference_chars: Option<nat>,
) -> JsonView {
    let common = Map::empty().insert("sha"@, JsonView::Text(sha)).insert(
        "dry_run"@,
        JsonView::Bool(true),
    );
    JsonView::Object(
        match reference_chars {
            Some(n) => common.insert("reference_chars"@, number(n as int)).insert(
                "patch_chars"@,
                number(patch_chars as int),
            ),
            None => common.insert("patch_chars"@, number(patch_chars as int)).insert(
                "fast"@,
                JsonView::Bool(true),
            ),
        },
    )
}

pub fn dry_run_report(sha: &str, patch_chars: usize, reference_chars: Option<usize>) -> (r: Json)
    ensures
        r@ == dry_run_value(
            sha@,
            patch_chars as nat,
            match reference_chars {
                Some(n) => Some(n as nat),
                None => None,
            },
        ),
{
    let common = Json::object().with("sha", Json::text(sha)).with("dry_run", Json::Bool(true));
    match reference_chars {
        Some(n) => common.with("reference_chars", Json::number(n as u64)).with(
            "patch_chars",
            Json::number(patch_chars as u64),
        ),
        None => common.with("patch_chars", Json::number(patch_chars as u64)).with(
            "fast",
            Json::Bool(true),
        ),
    }
}

/// The member of a report, an empty list where it has none.
pub open spec fn field_or_empty(report: JsonView, name: Seq<char>) -> JsonView {
    match field(report, name) {
        Some(x) => x,
        None => JsonView::List(Seq::empty()),
    }
}

pub fn get_or_empty(report: &Json, name: &str) -> (r: Json)
    ensures
        r@ == field_or_empty(report@, name@),
{
    match report.get(name) {
        Some(x) => x.clone(),
        None => Json::empty_list(),
    }
}

/// The report of a commit that was reviewed by stages. The members whose names begin with an
/// underscore are for the validation and go before the report is shown.
pub open spec fn reviewed_value(
    sha: Seq<char>,
    findings: JsonView,
    additional: JsonView,
    result: CommitReviewResult,
) -> JsonView {
    let report = JsonView::Object(
        Map::empty().insert("sha"@, JsonView::Text(sha)).insert(
            "findings"@,
            field_or_empty(findings, "findings"@),
        ).insert("_additional_findings"@, field_or_empty(additional, "findings"@)).insert(
            "_baseline_challenges"@,
            result.baseline_challenges_val@,
        ).insert("usage"@, result.usage_commit@),
    );
    let report = if result.validation_context@.len() > 0 {
        with_field(report, "_validation_context"@, JsonView::Text(result.validation_context@))
    } else {
        report
    };
    let report = match result.usage_steps {
        Some(steps) => with_field(report, "usage_steps"@, steps@),
        None => report,
    };
    with_guides(
        report,
        match result.phase0_selected_prompts {
            Some(guides) => Some(texts(guides@)),
            None => None,
        },
    )
}

/// The report of a commit that was reviewed by stages, with its findings and those that the
/// stages add after their locations were checked.
pub fn reviewed_report(sha: &str, findings: &Json, additional: &Json, result: &CommitReviewResult) -> (r:
    Json)
    ensures
        r@ == reviewed_value(sha@, findings@, additional@, *result),
{
    let mut report = Json::object().with("sha", Json::text(sha)).with(
        "findings",
        get_or_empty(findings, "findings"),
    ).with("_additional_findings", get_or_empty(additional, "findings")).with(
        "_baseline_challenges",
        result.baseline_challenges_val.clone(),
    ).with("usage", result.usage_commit.clone());
    if !is_empty(result.validation_context.as_str()) {
        report.set("_validation_context", Json::text(result.validation_context.as_str()));
    }
    if let Some(steps) = &result.usage_steps {
        report.set("usage_steps", steps.clone());
    }
    add_guides(report, &result.phase0_selected_prompts)
}

/// Ends the review of a commit: takes the wrong locations off its findings and off those that the
/// stages add, has both repaired, and reports them. What the repair did to the findings comes with
/// the report.
pub fn report_review<F: Fn(Json) -> (Json, MessageConcernRepair)>(
    sha: &str,
    result: &CommitReviewResult,
    patch: &str,
    changed: &[String],
    repair: &F,
) -> (r: (Json, MessageConcernRepair))
    requires
        line_numbers_fit(patch@),
        forall|report: Json| #[trigger] call_requires(*repair, (report,)),
    ensures
        is_review_report(sha@, *result, patch@, texts(changed@), *repair, r.0@, r.1),
{
    let mut findings = result.findings_val.clone();
    let done = cleanup_repair_and_validate_findings(&mut findings, patch, changed, repair);
    let mut additional = result.additional_findings_val.clone();
    let other = cleanup_repair_and_validate_findings(&mut additional, patch, changed, repair);
    let report = reviewed_report(sha, &findings, &additional, result);
    proof {
        let names = texts(changed@);
        assert(is_repaired(result.findings_val@, patch@, names, *repair, done, findings@));
        assert(is_repaired(result.additional_findings_val@, patch@, names, *repair, other, additional@));
    }
    (report, done)
}

/// Whether a report is that of a review whose findings, and those that its stages add, were cleaned
/// and repaired.
pub open spec fn is_review_report<F: Fn(Json) -> (Json, MessageConcernRepair)>(
    sha: Seq<char>,
    result: CommitReviewResult,
    patch: Seq<char>,
    changed: Seq<Seq<char>>,
    repair: F,
    report: JsonView,
    done: MessageConcernRepair,
) -> bool {
    exists|findings: JsonView, additional: JsonView, other: MessageConcernRepair|
        {
            &&& #[trigger] is_repaired(result.findings_val@, patch, changed, repair, done, findings)
            &&& #[trigger] is_repaired(
                result.additional_findings_val@,
                patch,
                changed,
                repair,
                other,
                additional,
            )
            &&& report == reviewed_value(sha, findings, additional, result)
        }
}

// ---------------------------------------------------------------------------------------------
// The outcome of the work on a commit
// ---------------------------------------------------------------------------------------------

/// The report of a commit, from what the work on it gave, with the data of the commit and the
/// time that it took.
pub open spec fn outcome_value(
    sha: Seq<char>,
    result: Result<Json, String>,
    meta: Option<CommitMeta>,
    patch: Option<Seq<char>>,
    changed: Option<Seq<Seq<char>>>,
    wall_ms: u64,
) -> JsonView {
    with_field(
        with_metadata(
            match result {
                Ok(report) => report@,
                Err(error) => failed_value(sha, error@),
            },
            meta,
            patch,
            changed,
        ),
        "wall_ms"@,
        number(wall_ms as int),
    )
}

/// What the work on a commit used. A review counts its calls itself; builds and tests report
/// theirs.
pub open spec fn outcome_counts(
    action: CommitAction,
    result: Result<Json, String>,
    counted: Counts,
) -> Counts {
    if action is Review {
        counted
    } else {
        match result {
            Ok(report) => match field(report@, "usage"@) {
                Some(usage) => reported_counts(usage),
                None => no_counts(),
            },
            Err(_) => no_counts(),
        }
    }
}

/// The report of a commit and what was used for it. An error is recorded in the report.
pub fn commit_outcome(
    sha: &str,
    action: &CommitAction,
    result: Result<Json, String>,
    counted: RunTotals,
    meta: &Option<CommitMeta>,
    patch: &Option<String>,
    changed: &Option<Vec<String>>,
    wall_ms: u64,
) -> (r: (Json, RunTotals))
    requires
        result matches Ok(report) ==> takes_members(report@),
    ensures
        r.0@ == outcome_value(
            sha@,
            result,
            *meta,
            opt_text(*patch),
            match changed {
                Some(changed) => Some(texts(changed@)),
                None => None,
            },
            wall_ms,
        ),
        r.1@ == outcome_counts(*action, result, counted@),
{
    let totals = if action.is_review() {
        counted
    } else {
        match &result {
            Ok(report) => match report.get("usage") {
                Some(usage) => totals_from_report(usage),
                None => RunTotals::new(),
            },
            Err(_) => RunTotals::new(),
        }
    };
    let report = match result {
        Ok(report) => report,
        Err(error) => failed_report(sha, error.as_str()),
    };
    let mut report = inject_commit_metadata(report, meta, patch, changed);
    report.set("wall_ms", Json::number(wall_ms));
    (report, totals)
}

/// Whatever became of the work on a commit, its report has the time that it took and the data of
/// the commit, as far as they are known; a failure is named, with no findings.
pub proof fn lemma_every_outcome_is_reported(
    sha: Seq<char>,
    result: Result<Json, String>,
    meta: Option<CommitMeta>,
    patch: Option<Seq<char>>,
    changed: Option<Seq<Seq<char>>>,
    wall_ms: u64,
)
    requires
        result matches Ok(report) ==> report@ is Object,
    ensures
        ({
            let report = outcome_value(sha, result, meta, patch, changed, wall_ms);
            &&& field(report, "wall_ms"@) == Some(number(wall_ms as int))
            &&& meta is Some ==> field(report, "subject"@) is Some && field(report, "author"@)
                is Some && field(report, "date"@) is Some && field(report, "parents"@) is Some
            &&& patch is Some ==> field(report, "patch"@) is Some
            &&& changed is Some ==> field(report, "changed_paths"@) is Some
            &&& result matches Err(error) ==> {
                &&& field(report, "sha"@) == Some(JsonView::Text(sha))
                &&& field(report, "findings"@) == Some(JsonView::List(Seq::empty()))
                &&& field(report, "error"@) == Some(JsonView::Text(error@))
            }
        }),
{
    let before = match result {
        Ok(report) => report@,
        Err(error) => failed_value(sha, error@),
    };
    lemma_metadata_is_there(before, meta, patch, changed);
    if let Err(error) = result {
        reveal_strlit("sha");
        reveal_strlit("findings");
        reveal_strlit("error");
        reveal_strlit("wall_ms");
        assert("sha"@.len() == 3);
        assert("findings"@.len() == 8);
        assert("error"@.len() == 5);
        assert("wall_ms"@.len() == 7);
        assert(field(before, "sha"@) == Some(JsonView::Text(sha)));
        assert(field(before, "findings"@) == Some(JsonView::List(Seq::<JsonView>::empty())));
        assert(field(before, "error"@) == Some(JsonView::Text(error@)));
        lemma_metadata_keeps_members(before, meta, patch, changed, "sha"@);
        lemma_metadata_keeps_members(before, meta, patch, changed, "findings"@);
        lemma_metadata_keeps_members(before, meta, patch, changed, "error"@);
    }
}

// ---------------------------------------------------------------------------------------------
// The rest of the series
// ---------------------------------------------------------------------------------------------

/// Whether later commits of the range matter for a commit's review.
pub open spec fn has_later_commits(commit_index: nat, num_commits: nat) -> bool {
    num_commits > 1 && commit_index + 1 != num_commits
}

pub fn wants_series_subjects(commit_index: usize, num_commits: usize) -> (r: bool)
    ensures
        r == has_later_commits(commit_index as nat, num_commits as nat),
{
    num_commits > 1 && commit_index != num_commits - 1
}

/// What the consolidation is told about the rest of the series. `subjects` are the subjects of
/// the range, or why they could not be listed.
pub open spec fn series_text(
    range: Seq<char>,
    commit_index: nat,
    num_commits: nat,
    subjects: Result<String, String>,
) -> Seq<char> {
    if num_commits <= 1 {
        "Not applicable: only one commit in the review range; there are no later patches in this range to compare against."@
    } else if !has_later_commits(commit_index, num_commits) {
        "Not applicable: this is the last commit in the review range (no subsequent commits in the same range)."@
    } else {
        match subjects {
            Ok(subjects) => if trim_end(subjects@).len() == 0 {
                "Git range `"@ + range
                    + "` returned no subjects from `git log --reverse --format=%s` (unexpected)."@
            } else {
                "User range: `"@ + range
                    + "` (same revision range as this boro run).\n\nPatch subjects in this range (oldest first):\n"@
                    + trim_end(subjects@)
            },
            Err(error) => "Could not run `git log` for series context on range `"@ + range
                + "`: "@ + error@ + "."@,
        }
    }
}

pub fn series_context_for_consolidation(
    range: &str,
    commit_index: usize,
    num_commits: usize,
    subjects: &Result<String, String>,
) -> (r: String)
    ensures
        r@ == series_text(range@, commit_index as nat, num_commits as nat, *subjects),
{
    if num_commits <= 1 {
        return copy_text(
            "Not applicable: only one commit in the review range; there are no later patches in this range to compare against.",
        );
    }
    if commit_index == num_commits - 1 {
        return copy_text(
            "Not applicable: this is the last commit in the review range (no subsequent commits in the same range).",
        );
    }
    match subjects {
        Ok(subjects) => {
            let chars = chars_of(subjects.as_str());
            let trimmed = trim_end_chars(chars.as_slice());
            if trimmed.len() == 0 {
                let mut r = copy_text("Git range `");
                push_text(&mut r, range);
                push_text(
                    &mut r,
                    "` returned no subjects from `git log --reverse --format=%s` (unexpected).",
                );
                r
            } else {
                let mut r = copy_text("User range: `");
                push_text(&mut r, range);
                push_text(
                    &mut r,
                    "` (same revision range as this boro run).\n\nPatch subjects in this range (oldest first):\n",
                );
                push_text(&mut r, string_of(trimmed).as_str());
                r
            }
        },
        Err(error) => {
            let mut r = copy_text("Could not run `git log` for series context on range `");
            push_text(&mut r, range);
            push_text(&mut r, "`: ");
            push_text(&mut r, error.as_str());
            push_text(&mut r, ".");
            r
        },
    }
}

} // verus!
