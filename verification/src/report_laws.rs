//! What holds of the values that are written about commits, member by member.

use vstd::prelude::*;
use crate::commit::{
    CommitMeta, dry_run_value, failed_value, field_or_empty, has_later_commits, outcome_counts,
    outcome_value, reviewed_value, series_text, with_metadata,
};
use crate::json::{Json, JsonView, NumberView, field, text_list};
use crate::options::CommitAction;
use crate::review::{CommitReviewResult, no_findings, single_report, with_guides};
use crate::review_laws::is_list_of;
use crate::text;
use crate::upstream::{
    FixView, MasterFix, fix_finding, fix_findings, fix_views, short_name, with_fixes,
};
use crate::usage::{
    Counts, StageView, no_counts, reported_counts, stage_counts, stage_value, summary_value,
};

verus! {

// ---------------------------------------------------------------------------------------------
// Fixes as findings
// ---------------------------------------------------------------------------------------------

proof fn lemma_fix_names_differ()
    ensures
        "problem"@ != "severity"@,
        "problem"@ != "severity_explanation"@,
        "problem"@ != "source"@,
        "problem"@ != "upstream_fix"@,
        "severity"@ != "severity_explanation"@,
        "severity"@ != "source"@,
        "severity"@ != "upstream_fix"@,
        "severity_explanation"@ != "source"@,
        "severity_explanation"@ != "upstream_fix"@,
        "source"@ != "upstream_fix"@,
{
    reveal_strlit("problem");
    reveal_strlit("severity");
    reveal_strlit("severity_explanation");
    reveal_strlit("source");
    reveal_strlit("upstream_fix");
    assert("problem"@.len() == 7 && "severity"@.len() == 8 && "severity_explanation"@.len() == 20
        && "source"@.len() == 6 && "upstream_fix"@.len() == 12);
}

proof fn lemma_fix_part_names_differ()
    ensures
        "sha"@ != "subject"@,
        "sha"@ != "date"@,
        "subject"@ != "date"@,
{
    reveal_strlit("sha");
    reveal_strlit("subject");
    reveal_strlit("date");
    assert("sha"@.len() == 3 && "subject"@.len() == 7 && "date"@.len() == 4);
}

/// A finding that reports a fix names the fix in its problem and its explanation, is of high
/// severity, says where it comes from, and holds the fix; it has no location.
pub proof fn lemma_fix_finding_members(fix: FixView, name: Seq<char>)
    ensures
        field(fix_finding(fix), "problem"@) == Some(
            JsonView::Text(
            "The reviewed commit has an upstream follow-up fix: "@ + text::first_chars(fix.sha, 10) + " "@
                + fix.subject + "."@,
        ),
        ),
        field(fix_finding(fix), "severity"@) == Some(
            JsonView::Text("High"@),
        ),
        field(fix_finding(fix), "severity_explanation"@) == Some(
            JsonView::Text(
            "The configured upstream branch contains commit "@ + fix.sha
                + " with a Fixes: trailer naming this reviewed commit. This is high-confidence evidence that upstream later corrected a regression introduced here."@,
        ),
        ),
        field(fix_finding(fix), "source"@) == Some(
            JsonView::Text("upstream-fixes"@),
        ),
        field(fix_finding(fix), "upstream_fix"@) matches Some(part) && {
            &&& field(part, "sha"@) == Some(JsonView::Text(fix.sha))
            &&& field(part, "subject"@) == Some(JsonView::Text(fix.subject))
            &&& field(part, "date"@) == Some(JsonView::Text(fix.date))
            &&& name != "sha"@ && name != "subject"@ && name != "date"@
                ==> field(part, name) is None
        },
        name != "problem"@ && name != "severity"@ && name != "severity_explanation"@ && name
            != "source"@ && name != "upstream_fix"@ ==> field(fix_finding(fix), name) is None,
{
    lemma_fix_names_differ();
    lemma_fix_part_names_differ();
}

/// The fixes stand behind the findings of a report, each in its place, and nothing else of the
/// report changes; without fixes nothing changes.
pub proof fn lemma_fixes_behind_findings(
    report: JsonView,
    fixes: Seq<FixView>,
    findings: Seq<JsonView>,
    name: Seq<char>,
)
    requires
        is_list_of(report, "findings"@, findings),
    ensures
        fixes.len() == 0 ==> with_fixes(report, fixes) == report,
        fixes.len() > 0 ==> (field(with_fixes(report, fixes), "findings"@) matches Some(
            JsonView::List(after),
        ) && {
            &&& after.len() == findings.len() + fixes.len()
            &&& forall|i: int| 0 <= i < findings.len() ==> #[trigger] after[i] == findings[i]
            &&& forall|i: int|
                0 <= i < fixes.len() ==> after[findings.len() + i] == fix_finding(
                    #[trigger] fixes[i],
                )
        }),
        fixes.len() > 0 && name != "findings"@ ==> field(with_fixes(report, fixes), name) == field(
            report,
            name,
        ),
        fix_findings(fixes).len() == fixes.len(),
        forall|i: int|
            0 <= i < fixes.len() ==> #[trigger] fix_findings(fixes)[i] == fix_finding(fixes[i]),
{
    if findings.len() == 0 {
        assert(findings =~= Seq::empty());
    }
}

// ---------------------------------------------------------------------------------------------
// Reports
// ---------------------------------------------------------------------------------------------

/// A report names the guides that were chosen, if there are any, and is the same otherwise.
pub proof fn lemma_guides_members(report: JsonView, guides: Seq<Seq<char>>, name: Seq<char>)
    ensures
        with_guides(report, None) == report,
        guides.len() == 0 ==> with_guides(report, Some(guides)) == report,
        guides.len() > 0 ==> field(with_guides(report, Some(guides)), "phase0_selected_prompts"@)
            == Some(text_list(guides)),
        name != "phase0_selected_prompts"@ ==> field(with_guides(report, Some(guides)), name)
            == field(report, name),
{
}

proof fn lemma_single_names_differ()
    ensures
        "sha"@ != "findings"@,
        "sha"@ != "_fast_review"@,
        "sha"@ != "usage"@,
        "sha"@ != "usage_steps"@,
        "sha"@ != "fast"@,
        "sha"@ != "phase0_selected_prompts"@,
        "findings"@ != "_fast_review"@,
        "findings"@ != "usage"@,
        "findings"@ != "usage_steps"@,
        "findings"@ != "fast"@,
        "findings"@ != "phase0_selected_prompts"@,
        "_fast_review"@ != "usage"@,
        "_fast_review"@ != "usage_steps"@,
        "_fast_review"@ != "fast"@,
        "_fast_review"@ != "phase0_selected_prompts"@,
        "usage"@ != "usage_steps"@,
        "usage"@ != "fast"@,
        "usage"@ != "phase0_selected_prompts"@,
        "usage_steps"@ != "fast"@,
        "usage_steps"@ != "phase0_selected_prompts"@,
        "fast"@ != "phase0_selected_prompts"@,
{
    reveal_strlit("sha");
    reveal_strlit("findings");
    reveal_strlit("_fast_review");
    reveal_strlit("usage");
    reveal_strlit("usage_steps");
    reveal_strlit("fast");
    reveal_strlit("phase0_selected_prompts");
    assert("sha"@.len() == 3 && "findings"@.len() == 8 && "_fast_review"@.len() == 12
        && "usage"@.len() == 5 && "usage_steps"@.len() == 11 && "fast"@.len() == 4
        && "phase0_selected_prompts"@.len() == 23);
}

/// The report of a review in one pass has what the model wrote, no findings, and what was used.
pub proof fn lemma_single_report_members(
    sha: Seq<char>,
    review: Seq<char>,
    usage: Seq<StageView>,
    guides: Option<Seq<Seq<char>>>,
    name: Seq<char>,
)
    ensures
        ({
            let report = single_report(sha, review, usage, guides);
            &&& field(report, "sha"@) == Some(JsonView::Text(sha))
            &&& field(report, "findings"@) matches Some(JsonView::List(l)) && l.len() == 0
            &&& field(report, "_fast_review"@) == Some(JsonView::Text(review))
            &&& field(report, "usage"@) == Some(summary_value(stage_counts(usage)))
            &&& field(report, "usage_steps"@) matches Some(JsonView::List(l)) && l.len()
                == usage.len() && forall|i: int|
                0 <= i < usage.len() ==> #[trigger] l[i] == stage_value(usage[i])
            &&& field(report, "fast"@) == Some(JsonView::Bool(true))
            &&& field(report, "phase0_selected_prompts"@) == match guides {
                Some(guides) => if guides.len() > 0 {
                    Some(text_list(guides))
                } else {
                    None
                },
                None => None,
            }
            &&& name != "sha"@ && name != "findings"@ && name != "_fast_review"@ && name
                != "usage"@ && name != "usage_steps"@ && name != "fast"@ && name
                != "phase0_selected_prompts"@ ==> field(report, name) is None
        }),
{
    lemma_single_names_differ();
}

/// The report of a commit whose review failed has no findings, and the error.
pub proof fn lemma_failed_members(sha: Seq<char>, error: Seq<char>, name: Seq<char>)
    ensures
        field(failed_value(sha, error), "sha"@) == Some(JsonView::Text(sha)),
        field(failed_value(sha, error), "findings"@) matches Some(JsonView::List(l)) && l.len()
            == 0,
        field(failed_value(sha, error), "error"@) == Some(JsonView::Text(error)),
        name != "sha"@ && name != "findings"@ && name != "error"@ ==> field(
            failed_value(sha, error),
            name,
        ) is None,
{
    reveal_strlit("sha");
    reveal_strlit("findings");
    reveal_strlit("error");
    assert("sha"@.len() == 3 && "findings"@.len() == 8 && "error"@.len() == 5);
}

proof fn lemma_dry_run_names_differ()
    ensures
        "sha"@ != "dry_run"@,
        "sha"@ != "reference_chars"@,
        "sha"@ != "patch_chars"@,
        "sha"@ != "fast"@,
        "dry_run"@ != "reference_chars"@,
        "dry_run"@ != "patch_chars"@,
        "dry_run"@ != "fast"@,
        "reference_chars"@ != "patch_chars"@,
        "reference_chars"@ != "fast"@,
        "patch_chars"@ != "fast"@,
{
    reveal_strlit("sha");
    reveal_strlit("dry_run");
    reveal_strlit("reference_chars");
    reveal_strlit("patch_chars");
    reveal_strlit("fast");
    assert("sha"@.len() == 3 && "dry_run"@.len() == 7 && "reference_chars"@.len() == 15
        && "patch_chars"@.len() == 11 && "fast"@.len() == 4);
}

/// The report of a dry run says so and gives the lengths of what would have been sent; a review in
/// one pass sends no reference.
pub proof fn lemma_dry_run_members(sha: Seq<char>, patch: nat, reference: nat, name: Seq<char>)
    ensures
        ({
            let staged = dry_run_value(sha, patch, Some(reference));
            &&& field(staged, "sha"@) == Some(JsonView::Text(sha))
            &&& field(staged, "dry_run"@) == Some(JsonView::Bool(true))
            &&& field(staged, "patch_chars"@) == Some(
                JsonView::Number(NumberView::Integer(patch as int)),
            )
            &&& field(staged, "reference_chars"@) == Some(
                JsonView::Number(NumberView::Integer(reference as int)),
            )
            &&& name != "sha"@ && name != "dry_run"@ && name != "patch_chars"@ && name
                != "reference_chars"@ ==> field(staged, name) is None
        }),
        ({
            let single = dry_run_value(sha, patch, None);
            &&& field(single, "sha"@) == Some(JsonView::Text(sha))
            &&& field(single, "dry_run"@) == Some(JsonView::Bool(true))
            &&& field(single, "patch_chars"@) == Some(
                JsonView::Number(NumberView::Integer(patch as int)),
            )
            &&& field(single, "fast"@) == Some(JsonView::Bool(true))
            &&& name != "sha"@ && name != "dry_run"@ && name != "patch_chars"@ && name != "fast"@
                ==> field(single, name) is None
        }),
{
    lemma_dry_run_names_differ();
}

proof fn lemma_metadata_names_differ()
    ensures
        "subject"@ != "author"@,
        "subject"@ != "date"@,
        "subject"@ != "parents"@,
        "subject"@ != "patch"@,
        "subject"@ != "changed_paths"@,
        "author"@ != "date"@,
        "author"@ != "parents"@,
        "author"@ != "patch"@,
        "author"@ != "changed_paths"@,
        "date"@ != "parents"@,
        "date"@ != "patch"@,
        "date"@ != "changed_paths"@,
        "parents"@ != "patch"@,
        "parents"@ != "changed_paths"@,
        "patch"@ != "changed_paths"@,
{
    reveal_strlit("subject");
    reveal_strlit("author");
    reveal_strlit("date");
    reveal_strlit("parents");
    reveal_strlit("patch");
    reveal_strlit("changed_paths");
    assert("subject"@.len() == 7 && "author"@.len() == 6 && "date"@.len() == 4 && "parents"@.len()
        == 7 && "patch"@.len() == 5 && "changed_paths"@.len() == 13);
    assert("subject"@[0] != "parents"@[0]);
}

/// What is known of a commit is put into its report where the report has no such member: a member
/// that is there stays, and no others come in. A value that is no object stays as it is.
pub proof fn lemma_metadata_members(
    report: JsonView,
    meta: Option<CommitMeta>,
    patch: Option<Seq<char>>,
    changed: Option<Seq<Seq<char>>>,
    name: Seq<char>,
)
    ensures
        !(report is Object) ==> with_metadata(report, meta, patch, changed) == report,
        ({
            let after = with_metadata(report, meta, patch, changed);
            &&& field(report, name) is Some ==> field(after, name) == field(report, name)
            &&& report is Object && field(report, name) is None ==> {
                &&& name == "subject"@ ==> field(after, name) == match meta {
                    Some(meta) => Some(JsonView::Text(meta.subject@)),
                    None => None,
                }
                &&& name == "author"@ ==> field(after, name) == match meta {
                    Some(meta) => Some(JsonView::Text(meta.author@)),
                    None => None,
                }
                &&& name == "date"@ ==> field(after, name) == match meta {
                    Some(meta) => Some(JsonView::Text(meta.date@)),
                    None => None,
                }
                &&& name == "parents"@ ==> field(after, name) == match meta {
                    Some(meta) => Some(text_list(text::texts(meta.parents@))),
                    None => None,
                }
                &&& name == "patch"@ ==> field(after, name) == match patch {
                    Some(patch) => Some(JsonView::Text(patch)),
                    None => None,
                }
                &&& name == "changed_paths"@ ==> field(after, name) == match changed {
                    Some(changed) => Some(text_list(changed)),
                    None => None,
                }
                &&& name != "subject"@ && name != "author"@ && name != "date"@ && name
                    != "parents"@ && name != "patch"@ && name != "changed_paths"@ ==> field(
                    after,
                    name,
                ) is None
            }
        }),
{
    lemma_metadata_names_differ();
}

proof fn lemma_reviewed_names_differ()
    ensures
        "sha"@ != "findings"@,
        "sha"@ != "_additional_findings"@,
        "sha"@ != "_baseline_challenges"@,
        "sha"@ != "usage"@,
        "sha"@ != "_validation_context"@,
        "sha"@ != "usage_steps"@,
        "sha"@ != "phase0_selected_prompts"@,
        "findings"@ != "_additional_findings"@,
        "findings"@ != "_baseline_challenges"@,
        "findings"@ != "usage"@,
        "findings"@ != "_validation_context"@,
        "findings"@ != "usage_steps"@,
        "findings"@ != "phase0_selected_prompts"@,
        "_additional_findings"@ != "_baseline_challenges"@,
        "_additional_findings"@ != "usage"@,
        "_additional_findings"@ != "_validation_context"@,
        "_additional_findings"@ != "usage_steps"@,
        "_additional_findings"@ != "phase0_selected_prompts"@,
        "_baseline_challenges"@ != "usage"@,
        "_baseline_challenges"@ != "_validation_context"@,
        "_baseline_challenges"@ != "usage_steps"@,
        "_baseline_challenges"@ != "phase0_selected_prompts"@,
        "usage"@ != "_validation_context"@,
        "usage"@ != "usage_steps"@,
        "usage"@ != "phase0_selected_prompts"@,
        "_validation_context"@ != "usage_steps"@,
        "_validation_context"@ != "phase0_selected_prompts"@,
        "usage_steps"@ != "phase0_selected_prompts"@,
{
    reveal_strlit("sha");
    reveal_strlit("findings");
    reveal_strlit("_additional_findings");
    reveal_strlit("_baseline_challenges");
    reveal_strlit("usage");
    reveal_strlit("_validation_context");
    reveal_strlit("usage_steps");
    reveal_strlit("phase0_selected_prompts");
    assert("sha"@.len() == 3 && "findings"@.len() == 8 && "_additional_findings"@.len() == 20
        && "_baseline_challenges"@.len() == 20 && "usage"@.len() == 5
        && "_validation_context"@.len() == 19 && "usage_steps"@.len() == 11
        && "phase0_selected_prompts"@.len() == 23);
    assert("_additional_findings"@[1] != "_baseline_challenges"@[1]);
}

/// The member of that name, or an empty list.
pub open spec fn is_member_or_empty(v: JsonView, name: Seq<char>, x: JsonView) -> bool {
    match field(v, name) {
        Some(y) => x == y,
        None => x matches JsonView::List(l) && l.len() == 0,
    }
}

/// The report of a review by stages has the findings of both reports, the challenges, and what was
/// used; the context, the steps and the guides only if there are any.
pub proof fn lemma_reviewed_members(
    sha: Seq<char>,
    findings: JsonView,
    additional: JsonView,
    result: CommitReviewResult,
    name: Seq<char>,
)
    ensures
        ({
            let report = reviewed_value(sha, findings, additional, result);
            &&& field(report, "sha"@) == Some(JsonView::Text(sha))
            &&& field(report, "findings"@) matches Some(x) && is_member_or_empty(
                findings,
                "findings"@,
                x,
            )
            &&& field(report, "_additional_findings"@) matches Some(x) && is_member_or_empty(
                additional,
                "findings"@,
                x,
            )
            &&& field(report, "_baseline_challenges"@) == Some(result.baseline_challenges_val@)
            &&& field(report, "usage"@) == Some(result.usage_commit@)
            &&& field(report, "_validation_context"@) == if result.validation_context@.len() > 0 {
                Some(JsonView::Text(result.validation_context@))
            } else {
                None
            }
            &&& field(report, "usage_steps"@) == match result.usage_steps {
                Some(steps) => Some(steps@),
                None => None,
            }
            &&& field(report, "phase0_selected_prompts"@) == match result.phase0_selected_prompts {
                Some(guides) => if guides@.len() > 0 {
                    Some(text_list(text::texts(guides@)))
                } else {
                    None
                },
                None => None,
            }
            &&& name != "sha"@ && name != "findings"@ && name != "_additional_findings"@ && name
                != "_baseline_challenges"@ && name != "usage"@ && name != "_validation_context"@
                && name != "usage_steps"@ && name != "phase0_selected_prompts"@ ==> field(
                report,
                name,
            ) is None
        }),
{
    lemma_reviewed_names_differ();
}

/// The outcome for a commit is its report, or one with the error, with what is known of the commit
/// and how long it took.
pub proof fn lemma_outcome_members(
    sha: Seq<char>,
    report: Json,
    error: String,
    meta: Option<CommitMeta>,
    patch: Option<Seq<char>>,
    changed: Option<Seq<Seq<char>>>,
    wall_ms: u64,
    name: Seq<char>,
)
    ensures
        ({
            let done = outcome_value(sha, Ok(report), meta, patch, changed, wall_ms);
            let failed = outcome_value(sha, Err(error), meta, patch, changed, wall_ms);
            let took = JsonView::Number(NumberView::Integer(wall_ms as int));
            &&& field(done, "wall_ms"@) == Some(took)
            &&& field(failed, "wall_ms"@) == Some(took)
            &&& name != "wall_ms"@ ==> field(done, name) == field(
                with_metadata(report@, meta, patch, changed),
                name,
            )
            &&& name != "wall_ms"@ ==> field(failed, name) == field(
                with_metadata(failed_value(sha, error@), meta, patch, changed),
                name,
            )
        }),
{
}

/// A review is counted as it ran; any other outcome by what its report says was used, and one that
/// says nothing, or a failure, counts for nothing.
pub proof fn lemma_outcome_counts(
    action: CommitAction,
    report: Json,
    error: String,
    usage: JsonView,
    counted: Counts,
)
    ensures
        action is Review ==> outcome_counts(action, Ok(report), counted) == counted
            && outcome_counts(action, Err(error), counted) == counted,
        !(action is Review) ==> outcome_counts(action, Err(error), counted) == no_counts(),
        !(action is Review) && field(report@, "usage"@) is None ==> outcome_counts(
            action,
            Ok(report),
            counted,
        ) == no_counts(),
        !(action is Review) && field(report@, "usage"@) == Some(usage) ==> outcome_counts(
            action,
            Ok(report),
            counted,
        ) == reported_counts(usage),
{
}

/// A commit of a range, counted from zero, has later ones exactly if it is not the last.
pub proof fn lemma_later_commits(index: nat, commits: nat)
    requires
        index < commits,
    ensures
        has_later_commits(index, commits) <==> index + 1 < commits,
{
}

/// The series of a commit that has later ones is told by the range and the subjects; a commit that
/// has none gets a text that says so.
pub proof fn lemma_series_text(
    range: Seq<char>,
    index: nat,
    commits: nat,
    subjects: String,
    error: String,
    outcome: Result<String, String>,
)
    requires
        index < commits,
    ensures
        index + 1 < commits && text::trim_end(subjects@).len() > 0 ==> series_text(
            range,
            index,
            commits,
            Ok(subjects),
        ) == "User range: `"@ + range
            + "` (same revision range as this boro run).\n\nPatch subjects in this range (oldest first):\n"@
            + text::trim_end(subjects@),
        index + 1 < commits && text::trim_end(subjects@).len() == 0 ==> series_text(
            range,
            index,
            commits,
            Ok(subjects),
        ) == "Git range `"@ + range
            + "` returned no subjects from `git log --reverse --format=%s` (unexpected)."@,
        index + 1 < commits ==> series_text(range, index, commits, Err(error))
            == "Could not run `git log` for series context on range `"@ + range + "`: "@ + error@
            + "."@,
        index + 1 == commits && commits > 1 ==> series_text(range, index, commits, outcome)
            == "Not applicable: this is the last commit in the review range (no subsequent commits in the same range)."@,
        commits == 1 ==> series_text(range, index, commits, outcome)
            == "Not applicable: only one commit in the review range; there are no later patches in this range to compare against."@,
{
}

/// A fix is known by its full name, its subject and its date; the short name has the first ten
/// characters of the full one, or all if there are fewer.
pub proof fn lemma_fixes(fixes: Seq<MasterFix>, sha: Seq<char>)
    ensures
        fix_views(fixes).len() == fixes.len(),
        forall|i: int|
            0 <= i < fixes.len() ==> (#[trigger] fix_views(fixes)[i]).sha == fixes[i].sha@
                && fix_views(fixes)[i].subject == fixes[i].subject@ && fix_views(fixes)[i].date
                == fixes[i].date@,
        sha.len() >= 10 ==> short_name(sha) == sha.take(10),
        sha.len() < 10 ==> short_name(sha) == sha,
{
}

/// A missing member is an empty list, and a report of nothing has an empty list of findings.
pub proof fn lemma_missing_member(v: JsonView, name: Seq<char>, x: JsonView)
    ensures
        field(v, name) == Some(x) ==> field_or_empty(v, name) == x,
        field(v, name) is None ==> field_or_empty(v, name) == JsonView::List(Seq::empty()),
        field(no_findings(), "findings"@) == Some(JsonView::List(Seq::empty())),
        name != "findings"@ ==> field(no_findings(), name) is None,
{
}

} // verus!
