//! What holds of a finding on its way from the review of a commit to the report of a run.

use vstd::prelude::*;
use crate::anchors::{
    MessageConcernRepair, anchored_report, cleaned_report, in_changed_files, is_repaired,
    lemma_findings_survive, same_but_location,
};
use crate::challenges::list_items;
use crate::commit::{
    CommitMeta, field_or_empty, is_review_report, lemma_metadata_keeps_members, outcome_value,
    reviewed_value,
};
use crate::diff_index::shown_lines;
use crate::findings::{lemma_merge_keeps_base, merged};
use crate::json::{Json, JsonView, field, list_or_empty, text_or_empty};
use crate::review::{CommitReviewResult, ReviewView};
use crate::review_laws::{before_broad, review_holds};
use crate::run::{is_handoff, lemma_handoffs_are_removed, with_additions, without_handoffs};
use crate::validation::{
    ValidationView, entry_for, kept_additions, kept_baseline, lemma_failure_keeps_baseline,
    validated_commit,
};

verus! {

/// Whether each finding stands at its place in a longer list, but for its location.
pub open spec fn stand_in_front(findings: Seq<JsonView>, list: Seq<JsonView>) -> bool {
    &&& findings.len() <= list.len()
    &&& forall|i: int|
        0 <= i < findings.len() ==> same_but_location(#[trigger] list[i], findings[i])
}

/// Whether a repair leaves every finding at its place and changes nothing of it but its location.
pub open spec fn only_moves<F: Fn(Json) -> (Json, MessageConcernRepair)>(repair: F) -> bool {
    forall|before: Json, after: Json, done: MessageConcernRepair| #[trigger]
        call_ensures(repair, (before,), (after, done)) ==> stand_in_front(
            list_or_empty(before@, "findings"@),
            list_or_empty(after@, "findings"@),
        )
}

proof fn lemma_in_front_of_longer(a: Seq<JsonView>, b: Seq<JsonView>, c: Seq<JsonView>)
    requires
        stand_in_front(a, b),
        stand_in_front(b, c),
    ensures
        stand_in_front(a, c),
{
    assert forall|i: int| 0 <= i < a.len() implies same_but_location(#[trigger] c[i], a[i]) by {
        assert(same_but_location(b[i], a[i]));
    }
}

proof fn lemma_checked_findings(report: JsonView, patch: Seq<char>, changed: Seq<Seq<char>>)
    ensures
        stand_in_front(
            list_or_empty(report, "findings"@),
            list_or_empty(in_changed_files(report, changed), "findings"@),
        ),
        stand_in_front(
            list_or_empty(report, "findings"@),
            list_or_empty(anchored_report(report, shown_lines(patch)), "findings"@),
        ),
{
    lemma_findings_survive(report, changed, shown_lines(patch));
}

proof fn lemma_repaired_findings<F: Fn(Json) -> (Json, MessageConcernRepair)>(
    report: JsonView,
    patch: Seq<char>,
    changed: Seq<Seq<char>>,
    repair: F,
    done: MessageConcernRepair,
    after: JsonView,
)
    requires
        only_moves(repair),
        is_repaired(report, patch, changed, repair, done, after),
    ensures
        stand_in_front(list_or_empty(report, "findings"@), list_or_empty(after, "findings"@)),
{
    let name = "findings"@;
    let (cleaned, repaired) = choose|cleaned: Json, repaired: Json|
        {
            &&& cleaned@ == cleaned_report(report, patch, changed)
            &&& #[trigger] call_ensures(repair, (cleaned,), (repaired, done))
            &&& after == anchored_report(repaired@, shown_lines(patch))
        };
    let once = in_changed_files(report, changed);
    lemma_checked_findings(report, patch, changed);
    lemma_checked_findings(once, patch, changed);
    lemma_checked_findings(repaired@, patch, changed);
    lemma_in_front_of_longer(
        list_or_empty(report, name),
        list_or_empty(once, name),
        list_or_empty(cleaned@, name),
    );
    lemma_in_front_of_longer(
        list_or_empty(report, name),
        list_or_empty(cleaned@, name),
        list_or_empty(repaired@, name),
    );
    lemma_in_front_of_longer(
        list_or_empty(report, name),
        list_or_empty(repaired@, name),
        list_or_empty(after, name),
    );
}

proof fn lemma_reviewed_members(
    sha: Seq<char>,
    findings: JsonView,
    additional: JsonView,
    result: CommitReviewResult,
)
    ensures
        ({
            let report = reviewed_value(sha, findings, additional, result);
            &&& report is Object
            &&& field(report, "sha"@) == Some(JsonView::Text(sha))
            &&& field(report, "findings"@) == Some(field_or_empty(findings, "findings"@))
        }),
{
    reveal_strlit("sha");
    reveal_strlit("findings");
    reveal_strlit("_additional_findings");
    reveal_strlit("_baseline_challenges");
    reveal_strlit("usage");
    reveal_strlit("_validation_context");
    reveal_strlit("usage_steps");
    reveal_strlit("phase0_selected_prompts");
    assert("sha"@.len() == 3);
    assert("findings"@.len() == 8);
    assert("_additional_findings"@.len() == 20);
    assert("_baseline_challenges"@.len() == 20);
    assert("usage"@.len() == 5);
    assert("_validation_context"@.len() == 19);
    assert("usage_steps"@.len() == 11);
    assert("phase0_selected_prompts"@.len() == 23);
}

/// Whether a commit has the findings of a review's baseline, each at its place and unchanged but
/// for its location.
pub open spec fn has_baseline(commit: JsonView, s: ReviewView) -> bool {
    &&& field(commit, "findings"@) is Some
    &&& stand_in_front(list_or_empty(s.baseline, "findings"@), list_or_empty(commit, "findings"@))
}

/// Every finding of a review's baseline is in the report of its commit, at its place and unchanged
/// but for its location, if the repair only moves findings.
pub proof fn lemma_baseline_is_reported<F: Fn(Json) -> (Json, MessageConcernRepair)>(
    s: ReviewView,
    sha: Seq<char>,
    result: CommitReviewResult,
    patch: Seq<char>,
    changed: Seq<Seq<char>>,
    repair: F,
    done: MessageConcernRepair,
    report: Json,
    meta: Option<CommitMeta>,
    shown_patch: Option<Seq<char>>,
    shown_paths: Option<Seq<Seq<char>>>,
    wall_ms: u64,
)
    requires
        result.findings_val@ == s.baseline,
        only_moves(repair),
        is_review_report(sha, result, patch, changed, repair, report@, done),
    ensures
        ({
            let commit = outcome_value(sha, Ok(report), meta, shown_patch, shown_paths, wall_ms);
            &&& text_or_empty(commit, "sha"@) == sha
            &&& has_baseline(commit, s)
        }),
{
    let (findings, additional, other) = choose|
        findings: JsonView,
        additional: JsonView,
        other: MessageConcernRepair,
    |
        {
            &&& #[trigger] is_repaired(result.findings_val@, patch, changed, repair, done, findings)
            &&& #[trigger] is_repaired(
                result.additional_findings_val@,
                patch,
                changed,
                repair,
                other,
                additional,
            )
            &&& report@ == reviewed_value(sha, findings, additional, result)
        };
    lemma_repaired_findings(result.findings_val@, patch, changed, repair, done, findings);
    lemma_reviewed_members(sha, findings, additional, result);
    lemma_metadata_keeps_members(report@, meta, shown_patch, shown_paths, "sha"@);
    lemma_metadata_keeps_members(report@, meta, shown_patch, shown_paths, "findings"@);
    reveal_strlit("sha");
    reveal_strlit("findings");
    reveal_strlit("wall_ms");
    assert("sha"@.len() == 3);
    assert("findings"@.len() == 8);
    assert("wall_ms"@.len() == 7);
    let commit = outcome_value(sha, Ok(report), meta, shown_patch, shown_paths, wall_ms);
    assert(field(commit, "findings"@) == field(report@, "findings"@));
    assert(list_or_empty(commit, "findings"@) =~= list_or_empty(findings, "findings"@));
}

/// Every finding of the fast pass is in the validated findings of its commit, at its place and
/// unchanged but for its location, if nothing was validated for the commit or there were no tools
/// to disprove it with.
pub proof fn lemma_fast_findings_are_reported(
    s: ReviewView,
    commit: JsonView,
    v: ValidationView,
    sensitive: Seq<bool>,
    no_tools: bool,
)
    requires
        review_holds(s),
        !before_broad(s.step),
        !s.options.single_pass,
        has_baseline(commit, s),
        text_or_empty(commit, "sha"@).len() > 0,
        no_tools || entry_for(v, text_or_empty(commit, "sha"@)) is None,
    ensures
        stand_in_front(
            s.fast_findings,
            list_or_empty(validated_commit(commit, v, sensitive, no_tools), "validated_findings"@),
        ),
{
    lemma_failure_keeps_baseline(commit, v, no_tools);
    let before = list_or_empty(commit, "findings"@);
    let kept = list_items(kept_baseline(commit, v, no_tools));
    assert(kept =~= before);
    let additions = kept_additions(commit, v, sensitive);
    lemma_merge_keeps_base(kept, additions);
    let all = merged(kept, additions);
    assert(list_or_empty(validated_commit(commit, v, sensitive, no_tools), "validated_findings"@)
        == all);
    lemma_longer_list(s, before, all);
}

proof fn lemma_longer_list(s: ReviewView, list: Seq<JsonView>, all: Seq<JsonView>)
    requires
        review_holds(s),
        !before_broad(s.step),
        !s.options.single_pass,
        stand_in_front(list_or_empty(s.baseline, "findings"@), list),
        list.len() <= all.len(),
        all.take(list.len() as int) == list,
    ensures
        stand_in_front(s.fast_findings, all),
{
    let baseline = list_or_empty(s.baseline, "findings"@);
    assert forall|i: int| 0 <= i < s.fast_findings.len() implies same_but_location(
        #[trigger] all[i],
        s.fast_findings[i],
    ) by {
        assert(all.take(list.len() as int)[i] == all[i]);
        assert(baseline[i] == s.fast_findings[i]);
        assert(same_but_location(list[i], baseline[i]));
    }
}

/// Without a validation, every finding of the fast pass is in the findings of the final report of
/// its commit, at its place and unchanged but for its location.
pub proof fn lemma_fast_findings_are_reported_raw(s: ReviewView, commit: JsonView)
    requires
        review_holds(s),
        !before_broad(s.step),
        !s.options.single_pass,
        has_baseline(commit, s),
    ensures
        stand_in_front(
            s.fast_findings,
            list_or_empty(without_handoffs(with_additions(commit)), "findings"@),
        ),
{
    let before = list_or_empty(commit, "findings"@);
    let additions = list_or_empty(commit, "_additional_findings"@);
    lemma_merge_keeps_base(before, additions);
    let all = merged(before, additions);
    assert(!is_handoff("findings"@)) by {
        reveal_strlit("findings");
        reveal_strlit("_validation_context");
        reveal_strlit("_additional_findings");
        reveal_strlit("_baseline_challenges");
        assert("findings"@[0] == 'f');
        assert("_validation_context"@[0] == '_');
        assert("_additional_findings"@[0] == '_');
        assert("_baseline_challenges"@[0] == '_');
    }
    lemma_handoffs_are_removed(with_additions(commit), "findings"@);
    assert(list_or_empty(without_handoffs(with_additions(commit)), "findings"@) == all);
    lemma_longer_list(s, before, all);
}

} // verus!
