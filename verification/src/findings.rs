//! Findings: when two are the same, how lists of them are merged, and which of them are added or
//! taken back.

use vstd::prelude::*;
use crate::json::{
    Json, JsonView, copy_list, empty_object, field, list_or_empty, same_option, text_field,
    text_or_empty, views, with_field,
};
use crate::text;

verus! {

// ---------------------------------------------------------------------------------------------
// Identity
// ---------------------------------------------------------------------------------------------

/// The words of a finding's problem.
pub open spec fn problem_words(finding: JsonView) -> Seq<char> {
    text::plain_words(text_or_empty(finding, "problem"@))
}

pub fn normalized_finding_problem(finding: &Json) -> (r: String)
    ensures
        r@ == problem_words(finding@),
{
    text::to_plain_words(finding.str_or_empty("problem").as_str())
}

/// The commit of the upstream fix that a finding reports.
pub open spec fn fix_sha(finding: JsonView) -> Option<Seq<char>> {
    match field(finding, "upstream_fix"@) {
        Some(fix) => text_field(fix, "sha"@),
        None => None,
    }
}

fn get_fix_sha(finding: &Json) -> (r: Option<&str>)
    ensures
        match r {
            Some(sha) => fix_sha(finding@) == Some(sha@),
            None => fix_sha(finding@) is None,
        },
{
    match finding.get("upstream_fix") {
        Some(fix) => fix.get_str("sha"),
        None => None,
    }
}

/// Whether two findings are the same: two that report upstream fixes, if they report the same
/// one; others, if they have the same location and the same words in their problems, and any at
/// all.
pub open spec fn same_identity(a: JsonView, b: JsonView) -> bool {
    match (fix_sha(a), fix_sha(b)) {
        (Some(x), Some(y)) => x == y,
        _ => {
            &&& problem_words(a).len() > 0
            &&& problem_words(a) == problem_words(b)
            &&& field(a, "location"@) == field(b, "location"@)
        },
    }
}

pub fn findings_have_same_identity(a: &Json, b: &Json) -> (r: bool)
    ensures
        r == same_identity(a@, b@),
{
    if let (Some(x), Some(y)) = (get_fix_sha(a), get_fix_sha(b)) {
        return text::same_text(x, y);
    }
    let problem = normalized_finding_problem(a);
    !text::is_empty(problem.as_str()) && text::same_text(
        problem.as_str(),
        normalized_finding_problem(b).as_str(),
    ) && same_option(a.get("location"), b.get("location"))
}

/// Being the same finding goes both ways.
pub proof fn lemma_identity_is_symmetric(a: JsonView, b: JsonView)
    ensures
        same_identity(a, b) == same_identity(b, a),
{
}

/// Whether a finding says what it is about: it reports an upstream fix or its problem has words.
pub open spec fn has_identity(finding: JsonView) -> bool {
    fix_sha(finding) is Some || problem_words(finding).len() > 0
}

/// A finding is the same as itself exactly if it says what it is about.
pub proof fn lemma_identity_is_reflexive(a: JsonView)
    ensures
        same_identity(a, a) == has_identity(a),
{
}

// ---------------------------------------------------------------------------------------------
// Merging
// ---------------------------------------------------------------------------------------------

/// Whether a list holds the same finding already.
pub open spec fn is_known(findings: Seq<JsonView>, candidate: JsonView) -> bool {
    exists|i: int| 0 <= i < findings.len() && same_identity(#[trigger] findings[i], candidate)
}

/// The base followed by each addition that is not known by then.
pub open spec fn merged(base: Seq<JsonView>, additions: Seq<JsonView>) -> Seq<JsonView>
    decreases additions.len(),
{
    if additions.len() == 0 {
        base
    } else {
        let before = merged(base, additions.drop_last());
        if is_known(before, additions.last()) {
            before
        } else {
            before.push(additions.last())
        }
    }
}

fn knows(findings: &Vec<Json>, candidate: &Json) -> (r: bool)
    ensures
        r == is_known(views(findings@), candidate@),
{
    let mut i: usize = 0;
    while i < findings.len()
        invariant
            i <= findings@.len(),
            forall|k: int| 0 <= k < i ==> !same_identity(#[trigger] views(findings@)[k], candidate@),
        decreases findings@.len() - i,
    {
        if findings_have_same_identity(&findings[i], candidate) {
            assert(same_identity(views(findings@)[i as int], candidate@));
            return true;
        }
        i += 1;
    }
    false
}

/// Adds the findings that the base does not hold yet. The base stays in front, as it is.
pub fn merge_novel_findings(base: &Vec<Json>, additions: &Vec<Json>) -> (r: Vec<Json>)
    ensures
        views(r@) == merged(views(base@), views(additions@)),
{
    let mut out = copy_list(base);
    let mut i: usize = 0;
    assert(views(additions@).take(0) =~= Seq::<JsonView>::empty());
    while i < additions.len()
        invariant
            i <= additions@.len(),
            views(out@) == merged(views(base@), views(additions@).take(i as int)),
        decreases additions@.len() - i,
    {
        proof {
            let next = views(additions@).take(i + 1);
            assert(next.drop_last() =~= views(additions@).take(i as int));
            assert(next.last() == additions@[i as int]@);
        }
        if !knows(&out, &additions[i]) {
            let ghost before = views(out@);
            out.push(additions[i].clone());
            assert(views(out@) =~= before.push(additions@[i as int]@));
        }
        i += 1;
    }
    assert(views(additions@).take(i as int) =~= views(additions@));
    out
}

/// Merging keeps the base in front, unchanged: no addition replaces what was found before.
pub proof fn lemma_merge_keeps_base(base: Seq<JsonView>, additions: Seq<JsonView>)
    ensures
        base.len() <= merged(base, additions).len() <= base.len() + additions.len(),
        merged(base, additions).take(base.len() as int) == base,
    decreases additions.len(),
{
    if additions.len() > 0 {
        lemma_merge_keeps_base(base, additions.drop_last());
        let before = merged(base, additions.drop_last());
        assert(before.push(additions.last()).take(base.len() as int) =~= before.take(
            base.len() as int,
        ));
    } else {
        assert(base.take(base.len() as int) =~= base);
    }
}

/// What merging puts behind the base comes from the additions, and none of it is the same as a
/// finding in front of it.
pub proof fn lemma_merge_adds_only_novel(base: Seq<JsonView>, additions: Seq<JsonView>)
    ensures
        forall|j: int|
            base.len() <= j < merged(base, additions).len() ==> {
                &&& additions.contains(#[trigger] merged(base, additions)[j])
                &&& !is_known(merged(base, additions).take(j), merged(base, additions)[j])
            },
    decreases additions.len(),
{
    if additions.len() > 0 {
        let rest = additions.drop_last();
        lemma_merge_adds_only_novel(base, rest);
        lemma_merge_keeps_base(base, rest);
        let before = merged(base, rest);
        let after = merged(base, additions);
        assert forall|j: int| base.len() <= j < after.len() implies additions.contains(
            #[trigger] after[j],
        ) && !is_known(after.take(j), after[j]) by {
            if j < before.len() {
                assert(after[j] == before[j]);
                assert(after.take(j) =~= before.take(j));
                let k = choose|k: int| 0 <= k < rest.len() && rest[k] == before[j];
                assert(additions[k] == before[j]);
            } else {
                assert(after.take(j) =~= before);
                assert(after[j] == additions[additions.len() - 1]);
            }
        }
    }
}

/// After merging, every addition that says what it is about is known.
pub proof fn lemma_merge_covers_additions(base: Seq<JsonView>, additions: Seq<JsonView>)
    ensures
        forall|i: int|
            0 <= i < additions.len() && has_identity(#[trigger] additions[i]) ==> is_known(
                merged(base, additions),
                additions[i],
            ),
    decreases additions.len(),
{
    if additions.len() > 0 {
        let rest = additions.drop_last();
        lemma_merge_covers_additions(base, rest);
        let before = merged(base, rest);
        let after = merged(base, additions);
        assert forall|i: int|
            0 <= i < additions.len() && has_identity(#[trigger] additions[i]) implies is_known(
            after,
            additions[i],
        ) by {
            if i < rest.len() {
                assert(rest[i] == additions[i]);
                let k = choose|k: int|
                    0 <= k < before.len() && same_identity(#[trigger] before[k], additions[i]);
                assert(after[k] == before[k]);
            } else if !is_known(before, additions.last()) {
                assert(after[after.len() - 1] == additions[i]);
                assert(same_identity(after[after.len() - 1], additions[i]));
            }
        }
    }
}

/// Merging findings that are all known changes nothing.
pub proof fn lemma_merge_known(base: Seq<JsonView>, additions: Seq<JsonView>)
    requires
        forall|i: int| 0 <= i < additions.len() ==> is_known(base, #[trigger] additions[i]),
    ensures
        merged(base, additions) == base,
    decreases additions.len(),
{
    if additions.len() > 0 {
        let rest = additions.drop_last();
        assert forall|i: int| 0 <= i < rest.len() implies is_known(base, #[trigger] rest[i]) by {
            assert(rest[i] == additions[i]);
        }
        lemma_merge_known(base, rest);
        assert(is_known(base, additions[additions.len() - 1]));
    }
}

/// Merging the same findings a second time changes nothing, if each says what it is about.
pub proof fn lemma_merge_twice(base: Seq<JsonView>, additions: Seq<JsonView>)
    requires
        forall|i: int| 0 <= i < additions.len() ==> has_identity(#[trigger] additions[i]),
    ensures
        merged(merged(base, additions), additions) == merged(base, additions),
{
    lemma_merge_covers_additions(base, additions);
    lemma_merge_known(merged(base, additions), additions);
}

/// The report that holds the baseline's findings and then the novel ones of the additions.
pub open spec fn combined_report(baseline: JsonView, additions: JsonView) -> JsonView {
    with_field(
        empty_object(),
        "findings"@,
        JsonView::List(
            merged(
                list_or_empty(baseline, "findings"@),
                list_or_empty(additions, "findings"@),
            ),
        ),
    )
}

/// The findings to show while a review is still running.
pub fn combined_findings(baseline: &Json, additions: &Json) -> (r: Json)
    ensures
        r@ == combined_report(baseline@, additions@),
{
    let base = baseline.list_or_empty("findings");
    let extra = additions.list_or_empty("findings");
    Json::object().with("findings", Json::list(merge_novel_findings(&base, &extra)))
}

/// Whether the context that was gathered for linkage must be shown with a concern.
pub open spec fn wants_linkage_context(concern: JsonView) -> bool {
    text_field(concern, "category"@) == Some("configuration-linkage"@) || field(concern, "proof"@) is Some
}

pub fn concern_requires_linkage_context(concern: &Json) -> (r: bool)
    ensures
        r == wants_linkage_context(concern@),
{
    if let Some(category) = concern.get_str("category") {
        if text::same_text(category, "configuration-linkage") {
            return true;
        }
    }
    concern.get("proof").is_some()
}

} // verus!
