//! What holds of the mails about commits and of the summary of a run, in terms of what was found
//! and what was replied.

use vstd::prelude::*;
use crate::json::{Json, JsonView, NumberView, field};
use crate::lkml::{
    LkmlReply, LkmlResult, LkmlSource, LkmlView, asks_model, calls_failed, calls_made,
    chosen_findings, lkml_outcome, lkml_source, lkml_step_error, lkml_step_name,
    lkml_step_value, lkml_views, with_bodies, with_prose,
};
use crate::summary::{
    HighlightView, QuickSummaryHighlight, QuickSummaryResponse, SeverityCounts, SummaryCommit,
    SummaryReply, all_findings, all_summarized, asks_for_summary, counts_of, counts_value,
    finding_reference, findings_of, highlight_value, highlight_views, is_highlighted, place_in,
    place_of, quick_summary, resolved_highlight, resolved_highlights, severity_count,
    summarized, summary_commits, summary_highlights, summary_step_value, summary_text,
    summary_usage,
};
use crate::text::{decimal, trim};
use crate::upstream::no_usage;
use crate::usage::{TokenUsage, call_step_value, calls_counts, totals_step_value};
use crate::validation_laws::is_text_of;

verus! {

// ---------------------------------------------------------------------------------------------
// Mails
// ---------------------------------------------------------------------------------------------

/// The findings that a mail is about are the checked ones, if the commit has any such member, and
/// else those of the review; without either there are none.
pub proof fn lemma_chosen_findings(commit: JsonView, x: JsonView)
    ensures
        field(commit, "validated_findings"@) == Some(x) ==> chosen_findings(commit) == x,
        field(commit, "validated_findings"@) is None && field(commit, "findings"@) == Some(x)
            ==> chosen_findings(commit) == x,
        field(commit, "validated_findings"@) is None && field(commit, "findings"@) is None
            ==> chosen_findings(commit) == JsonView::List(Seq::empty()),
{
}

/// Whether a commit has a review in prose: a text that is not blank.
pub open spec fn has_prose(commit: JsonView, review: Seq<char>) -> bool {
    field(commit, "_fast_review"@) == Some(JsonView::Text(review)) && trim(review).len() > 0
}

/// A mail is written of a commit with a name: from its review in prose, if it has one, or else from
/// its findings, unless these are an empty list.
pub proof fn lemma_mail_source(commit: JsonView, sha: Seq<char>, review: Seq<char>, name: Seq<char>)
    requires
        is_text_of(commit, "sha"@, sha),
    ensures
        lkml_source(commit) is Unnamed <==> sha.len() == 0,
        lkml_source(commit) == LkmlSource::Review(review) <==> sha.len() > 0 && has_prose(
            commit,
            review,
        ),
        lkml_source(commit) is NoIssues <==> {
            &&& sha.len() > 0
            &&& forall|r: Seq<char>| !has_prose(commit, r)
            &&& chosen_findings(commit) matches JsonView::List(l) && l.len() == 0
        },
        lkml_source(commit) matches LkmlSource::Findings(report) ==> {
            &&& field(report, "findings"@) == Some(chosen_findings(commit))
            &&& name != "findings"@ ==> field(report, name) is None
        },
        asks_model(lkml_source(commit)) <==> !(lkml_source(commit) is Unnamed) && !(lkml_source(
            commit,
        ) is NoIssues),
{
    if sha.len() == 0 {
        assert(sha =~= Seq::empty());
    }
    if let JsonView::List(l) = chosen_findings(commit) {
        if l.len() == 0 {
            assert(l =~= Seq::empty());
        }
    }
    if let Some(JsonView::Text(r)) = field(commit, "_fast_review"@) {
        assert(trim(r).len() > 0 ==> has_prose(commit, r));
    }
}

/// What the model wrote is the mail. If it could not be asked, the review in prose is, and without
/// one there is none. A commit without findings gets a fixed text, and one without a name nothing;
/// neither is a call.
pub proof fn lemma_mail_outcome(
    index: nat,
    source: LkmlSource,
    text: String,
    usage: TokenUsage,
    reason: String,
    wall_ms: u64,
    reply: LkmlReply,
)
    ensures
        lkml_outcome(index, source, reply).index == index,
        source is Unnamed ==> lkml_outcome(index, source, reply).body is None && lkml_outcome(
            index,
            source,
            reply,
        ).stage is None,
        source is NoIssues ==> lkml_outcome(index, source, reply).body == Some("No issues found."@)
            && lkml_outcome(index, source, reply).stage is None,
        source is Review || source is Findings ==> {
            let written = lkml_outcome(index, source, LkmlReply::Text { text, usage, wall_ms });
            &&& written.body == Some(text@)
            &&& written.stage matches Some(stage) && stage.step == "lkml"@ && stage.usage == usage
                && stage.wall_ms == wall_ms && stage.error is None
        },
        source is Review || source is Findings ==> {
            let failed = lkml_outcome(index, source, LkmlReply::Failed { reason, wall_ms });
            &&& source matches LkmlSource::Review(review) ==> failed.body == Some(review)
            &&& source is Findings ==> failed.body is None
            &&& failed.stage matches Some(stage) && stage.step == "lkml"@ && stage.usage
                == no_usage() && stage.wall_ms == wall_ms && stage.error == Some(reason@)
        },
{
}

/// A mail is put into the commit that it is about, in place of one that is there; nothing else of
/// any commit changes.
pub proof fn lemma_mail_is_put_in(
    commits: Seq<JsonView>,
    results: Seq<LkmlView>,
    last: LkmlView,
    body: Seq<char>,
    i: int,
    name: Seq<char>,
)
    requires
        0 <= i < commits.len(),
        last.body is Some ==> last.index < commits.len(),
        forall|k: int|
            0 <= k < results.len() && (#[trigger] results[k]).body is Some ==> results[k].index
                < commits.len(),
    ensures
        with_bodies(commits, Seq::empty()) == commits,
        with_bodies(commits, results).len() == commits.len(),
        last.body is None ==> with_bodies(commits, results.push(last)) == with_bodies(
            commits,
            results,
        ),
        last.index != i ==> with_bodies(commits, results.push(last))[i] == with_bodies(
            commits,
            results,
        )[i],
        last.index == i && last.body == Some(body) ==> field(
            with_bodies(commits, results.push(last))[i],
            "lkml_report"@,
        ) == Some(JsonView::Text(body)),
        name != "lkml_report"@ ==> field(with_bodies(commits, results)[i], name) == field(
            commits[i],
            name,
        ),
{
    assert(results.push(last).drop_last() =~= results);
    lemma_bodies_frame(commits, results, i, name);
}

proof fn lemma_bodies_frame(commits: Seq<JsonView>, results: Seq<LkmlView>, i: int, name: Seq<char>)
    requires
        0 <= i < commits.len(),
        forall|k: int|
            0 <= k < results.len() && (#[trigger] results[k]).body is Some ==> results[k].index
                < commits.len(),
    ensures
        with_bodies(commits, results).len() == commits.len(),
        name != "lkml_report"@ ==> field(with_bodies(commits, results)[i], name) == field(
            commits[i],
            name,
        ),
    decreases results.len(),
{
    if results.len() > 0 {
        let rest = results.drop_last();
        assert(results[results.len() - 1] == results.last());
        assert(forall|k: int| 0 <= k < rest.len() ==> #[trigger] rest[k] == results[k]);
        lemma_bodies_frame(commits, rest, i, name);
    }
}

/// The mails go into the commits of the run, and nothing else of the run changes.
pub proof fn lemma_prose_members(
    out: JsonView,
    results: Seq<LkmlView>,
    commits: Seq<JsonView>,
    name: Seq<char>,
)
    ensures
        field(out, "commits"@) == Some(JsonView::List(commits)) ==> field(
            with_prose(out, results),
            "commits"@,
        ) == Some(JsonView::List(with_bodies(commits, results))),
        !(field(out, "commits"@) matches Some(JsonView::List(_))) ==> with_prose(out, results)
            == out,
        name != "commits"@ ==> field(with_prose(out, results), name) == field(out, name),
{
}

/// Every call for a mail is counted, in order, and the failed ones are those with an error.
pub proof fn lemma_mail_calls_one_more(results: Seq<LkmlView>, last: LkmlView)
    ensures
        calls_made(Seq::empty()).len() == 0,
        calls_failed(Seq::empty()) == 0,
        last.stage is None ==> calls_made(results.push(last)) == calls_made(results)
            && calls_failed(results.push(last)) == calls_failed(results),
        last.stage matches Some(stage) ==> {
            &&& calls_made(results.push(last)) == calls_made(results).push(stage.usage)
            &&& stage.error is None ==> calls_failed(results.push(last)) == calls_failed(results)
            &&& stage.error is Some ==> calls_failed(results.push(last)) == calls_failed(results)
                + 1
        },
{
    assert(results.push(last).drop_last() =~= results);
}

/// The calls for mails are recorded together if there were any: under a name that gives their
/// number if there were more than one, with all that they used, and with an error if any failed.
pub proof fn lemma_mail_step(results: Seq<LkmlView>, wall_ms: u64, n: nat)
    ensures
        lkml_step_name(1) == "lkml"@,
        n != 1 ==> lkml_step_name(n) == "lkml x"@ + decimal(n),
        lkml_step_error(0) is None,
        n > 0 ==> lkml_step_error(n) == Some(
            decimal(n) + " LKML render call(s) failed; see per-commit LKML text"@,
        ),
        calls_made(results).len() == 0 ==> lkml_step_value(results, wall_ms) is None,
        calls_made(results).len() > 0 ==> lkml_step_value(results, wall_ms) == Some(
            totals_step_value(
                lkml_step_name(calls_made(results).len()),
                calls_counts(calls_made(results)),
                wall_ms,
                lkml_step_error(calls_failed(results)),
            ),
        ),
{
}

// ---------------------------------------------------------------------------------------------
// The summary
// ---------------------------------------------------------------------------------------------

/// Whether a reference is that of finding `f` of commit `c`.
pub open spec fn refers_to(
    commits: Seq<SummaryCommit>,
    reference: Seq<char>,
    c: int,
    f: int,
) -> bool {
    &&& 0 <= c < commits.len()
    &&& commits[c].findings matches JsonView::List(l) && 0 <= f < l.len()
    &&& reference == commits[c].sha + ":"@ + decimal(f as nat)
}

proof fn lemma_place_in(c: SummaryCommit, reference: Seq<char>, from: int)
    requires
        0 <= from,
    ensures
        match place_in(c, reference, from) {
            Some(f) => {
                &&& from <= f < findings_of(c).len()
                &&& reference == finding_reference(c.sha, f as nat)
                &&& forall|g: int|
                    from <= g < f ==> reference != #[trigger] finding_reference(c.sha, g as nat)
            },
            None => forall|g: int|
                from <= g < findings_of(c).len() ==> reference != #[trigger] finding_reference(
                    c.sha,
                    g as nat,
                ),
        },
    decreases findings_of(c).len() - from,
{
    if from < findings_of(c).len() && reference != finding_reference(c.sha, from as nat) {
        lemma_place_in(c, reference, from + 1);
    }
}

proof fn lemma_place_from(commits: Seq<SummaryCommit>, reference: Seq<char>, from: int)
    requires
        0 <= from,
    ensures
        match place_of(commits, reference, from) {
            Some((c, f)) => {
                &&& from <= c
                &&& refers_to(commits, reference, c, f)
                &&& forall|d: int, g: int|
                    #[trigger] refers_to(commits, reference, d, g) && from <= d ==> c < d || (c == d
                        && f <= g)
            },
            None => forall|d: int, g: int|
                #[trigger] refers_to(commits, reference, d, g) ==> d < from,
        },
    decreases commits.len() - from,
{
    if from < commits.len() {
        lemma_place_in(commits[from], reference, 0);
        assert forall|d: int, g: int|
            #[trigger] refers_to(commits, reference, d, g) && d == from implies (place_in(
            commits[from],
            reference,
            0,
        ) matches Some(f) && f <= g) by {
            assert(reference == finding_reference(commits[from].sha, g as nat));
            if let Some(f) = place_in(commits[from], reference, 0) {
                if g < f {
                    assert(reference != finding_reference(commits[from].sha, g as nat));
                }
            }
        }
        if place_in(commits[from], reference, 0) is None {
            lemma_place_from(commits, reference, from + 1);
        }
    }
}

/// A reference stands for the first finding that has it, in the order of the commits and of their
/// findings, and for nothing exactly if no finding has it.
pub proof fn lemma_place_is_first(commits: Seq<SummaryCommit>, reference: Seq<char>)
    ensures
        match place_of(commits, reference, 0) {
            Some((c, f)) => {
                &&& refers_to(commits, reference, c, f)
                &&& forall|d: int, g: int|
                    #[trigger] refers_to(commits, reference, d, g) ==> c < d || (c == d && f <= g)
            },
            None => forall|d: int, g: int| !#[trigger] refers_to(commits, reference, d, g),
        },
{
    lemma_place_from(commits, reference, 0);
}

proof fn lemma_highlight_names_differ()
    ensures
        "finding_ref"@ != "commit"@,
        "finding_ref"@ != "severity"@,
        "finding_ref"@ != "title"@,
        "finding_ref"@ != "question"@,
        "finding_ref"@ != "location"@,
        "commit"@ != "severity"@,
        "commit"@ != "title"@,
        "commit"@ != "question"@,
        "commit"@ != "location"@,
        "severity"@ != "title"@,
        "severity"@ != "question"@,
        "severity"@ != "location"@,
        "title"@ != "question"@,
        "title"@ != "location"@,
        "question"@ != "location"@,
{
    reveal_strlit("finding_ref");
    reveal_strlit("commit");
    reveal_strlit("severity");
    reveal_strlit("title");
    reveal_strlit("question");
    reveal_strlit("location");
    assert("finding_ref"@.len() == 11 && "commit"@.len() == 6 && "severity"@.len() == 8
        && "title"@.len() == 5 && "question"@.len() == 8 && "location"@.len() == 8);
    assert("severity"@[0] != "question"@[0]);
    assert("severity"@[0] != "location"@[0]);
    assert("question"@[0] != "location"@[0]);
}

/// A highlight has the model's words and the finding's own commit, severity and location.
pub proof fn lemma_highlight_members(
    h: HighlightView,
    sha: Seq<char>,
    severity: Seq<char>,
    finding: JsonView,
    name: Seq<char>,
)
    ensures
        ({
            let v = highlight_value(h, sha, severity, finding);
            &&& field(v, "finding_ref"@) == Some(JsonView::Text(h.finding_ref))
            &&& field(v, "commit"@) == Some(JsonView::Text(sha))
            &&& field(v, "severity"@) == Some(JsonView::Text(severity))
            &&& field(v, "title"@) == Some(JsonView::Text(h.title))
            &&& field(v, "question"@) == Some(JsonView::Text(h.question))
            &&& field(v, "location"@) == field(finding, "location"@)
            &&& name != "finding_ref"@ && name != "commit"@ && name != "severity"@ && name
                != "title"@ && name != "question"@ && name != "location"@ ==> field(v, name) is None
        }),
{
    lemma_highlight_names_differ();
}

/// Whether a finding has one of the four severities.
pub open spec fn has_severity(finding: JsonView, severity: Seq<char>) -> bool {
    &&& field(finding, "severity"@) == Some(JsonView::Text(severity))
    &&& severity == "Critical"@ || severity == "High"@ || severity == "Medium"@ || severity
        == "Low"@
}

/// A highlight counts exactly if its reference stands for a finding and that has a known severity;
/// what it becomes takes severity and location from the finding.
pub proof fn lemma_resolved_highlight(
    h: HighlightView,
    commits: Seq<SummaryCommit>,
    c: int,
    f: int,
    severity: Seq<char>,
)
    ensures
        place_of(commits, h.finding_ref, 0) is None ==> resolved_highlight(h, commits) is None,
        place_of(commits, h.finding_ref, 0) == Some((c, f)) && has_severity(
            findings_of(commits[c])[f],
            severity,
        ) ==> resolved_highlight(h, commits) == Some(
            highlight_value(h, commits[c].sha, severity, findings_of(commits[c])[f]),
        ),
        place_of(commits, h.finding_ref, 0) == Some((c, f)) && (forall|s: Seq<char>|
            !#[trigger] has_severity(findings_of(commits[c])[f], s)) ==> resolved_highlight(
            h,
            commits,
        ) is None,
{
    if place_of(commits, h.finding_ref, 0) == Some((c, f)) {
        if let Some(JsonView::Text(s)) = field(findings_of(commits[c])[f], "severity"@) {
            assert(has_severity(findings_of(commits[c])[f], s) || !crate::summary::is_severity(s));
        }
    }
}

/// Of one more highlight what it becomes is put behind the others, if it counts, none of them has
/// its reference, and there are fewer than the limit; all others stay.
pub proof fn lemma_highlights_one_more(
    highlights: Seq<HighlightView>,
    commits: Seq<SummaryCommit>,
    h: HighlightView,
)
    ensures
        resolved_highlights(Seq::empty(), commits).len() == 0,
        ({
            let before = resolved_highlights(highlights, commits);
            let known = exists|i: int|
                0 <= i < before.len() && field(#[trigger] before[i], "finding_ref"@) == Some(
                    JsonView::Text(h.finding_ref),
                );
            let after = resolved_highlights(highlights.push(h), commits);
            &&& before.len() >= 3 || known ==> after == before
            &&& before.len() < 3 && !known ==> after == match resolved_highlight(h, commits) {
                Some(v) => before.push(v),
                None => before,
            }
        }),
{
    assert(highlights.push(h).drop_last() =~= highlights);
    let before = resolved_highlights(highlights, commits);
    if is_highlighted(before, h.finding_ref) {
        let i = choose|i: int|
            0 <= i < before.len() && crate::json::text_field(#[trigger] before[i], "finding_ref"@)
                == Some(h.finding_ref);
        assert(field(before[i], "finding_ref"@) == Some(JsonView::Text(h.finding_ref)));
    }
}

/// A commit is summarised if it has a name and was not a dry run, with its subject and the findings
/// that its mail is about.
pub proof fn lemma_summarized(commit: JsonView, sha: Seq<char>, subject: Seq<char>)
    requires
        is_text_of(commit, "sha"@, sha),
        is_text_of(commit, "subject"@, subject),
    ensures
        summarized(commit) is Some <==> sha.len() > 0 && field(commit, "dry_run"@) != Some(
            JsonView::Bool(true),
        ),
        summarized(commit) matches Some(c) ==> c.sha == sha && c.subject == subject && c.findings
            == chosen_findings(commit),
{
    if sha.len() == 0 {
        assert(sha =~= Seq::empty());
    }
    if subject.len() == 0 {
        assert(subject =~= Seq::empty());
    }
}

/// One more commit is put behind the others, if it is summarised.
pub proof fn lemma_summarized_one_more(commits: Seq<JsonView>, commit: JsonView)
    ensures
        all_summarized(Seq::empty()).len() == 0,
        all_summarized(commits.push(commit)) == match summarized(commit) {
            Some(c) => all_summarized(commits).push(c),
            None => all_summarized(commits),
        },
{
    assert(commits.push(commit).drop_last() =~= commits);
}

/// A finding counts for a severity exactly if it has it, and all findings of all commits are
/// counted.
pub proof fn lemma_counts_one_more(
    findings: Seq<JsonView>,
    finding: JsonView,
    severity: Seq<char>,
    commits: Seq<SummaryCommit>,
    commit: SummaryCommit,
)
    ensures
        severity_count(Seq::empty(), severity) == 0,
        field(finding, "severity"@) == Some(JsonView::Text(severity)) ==> severity_count(
            findings.push(finding),
            severity,
        ) == severity_count(findings, severity) + 1,
        field(finding, "severity"@) != Some(JsonView::Text(severity)) ==> severity_count(
            findings.push(finding),
            severity,
        ) == severity_count(findings, severity),
        all_findings(Seq::empty()).len() == 0,
        all_findings(commits.push(commit)) == all_findings(commits) + match commit.findings {
            JsonView::List(l) => l,
            _ => Seq::empty(),
        },
{
    assert(findings.push(finding).drop_last() =~= findings);
    assert(commits.push(commit).drop_last() =~= commits);
}

/// The text of a summary is the model's, if it was asked and gave a usable answer; it is asked only
/// if there are findings.
pub proof fn lemma_summary_text(
    commits: Seq<SummaryCommit>,
    response: QuickSummaryResponse,
    usage: TokenUsage,
    wall_ms: u64,
    reply: Option<SummaryReply>,
)
    ensures
        commits.len() == 0 ==> summary_text(commits, reply) == "No commits reviewed."@,
        commits.len() > 0 && all_findings(commits).len() == 0 ==> summary_text(commits, reply)
            == "No issues found across the reviewed commits."@,
        all_findings(commits).len() == 0 ==> summary_highlights(commits, reply).len() == 0,
        all_findings(commits).len() > 0 ==> {
            let answered = Some(SummaryReply::Answered { response, usage, wall_ms });
            &&& summary_text(commits, answered) == response.text@
            &&& summary_highlights(commits, answered) == resolved_highlights(
                highlight_views(response.highlights@),
                commits,
            )
        },
        all_findings(commits).len() > 0 && !(reply matches Some(SummaryReply::Answered { .. }))
            ==> {
            &&& summary_text(commits, reply) == "Reviewed "@ + decimal(commits.len())
                + " commit(s); "@ + decimal(all_findings(commits).len()) + " finding(s) recorded."@
            &&& summary_highlights(commits, reply).len() == 0
        },
{
    if commits.len() == 0 {
        assert(commits =~= Seq::empty());
    }
}

/// The call for the summary is recorded with what it used and, where there is one, the error.
pub proof fn lemma_summary_step(
    response: QuickSummaryResponse,
    reason: String,
    usage: TokenUsage,
    wall_ms: u64,
)
    ensures
        summary_step_value(SummaryReply::Answered { response, usage, wall_ms }) == call_step_value(
            "summary"@,
            usage,
            wall_ms,
            None,
        ),
        summary_step_value(SummaryReply::Invalid { reason, usage, wall_ms }) == call_step_value(
            "summary"@,
            usage,
            wall_ms,
            Some("invalid quick-summary response: "@ + reason@),
        ),
        summary_step_value(SummaryReply::Failed { reason, wall_ms }) == call_step_value(
            "summary"@,
            no_usage(),
            wall_ms,
            Some(reason@),
        ),
{
}

proof fn lemma_severities_differ()
    ensures
        "Critical"@ != "High"@,
        "Critical"@ != "Medium"@,
        "Critical"@ != "Low"@,
        "High"@ != "Medium"@,
        "High"@ != "Low"@,
        "Medium"@ != "Low"@,
{
    reveal_strlit("Critical");
    reveal_strlit("High");
    reveal_strlit("Medium");
    reveal_strlit("Low");
    assert("Critical"@.len() == 8 && "High"@.len() == 4 && "Medium"@.len() == 6 && "Low"@.len()
        == 3);
}

/// The counts are those of each severity, under its name.
pub proof fn lemma_counts_members(findings: Seq<JsonView>, severity: Seq<char>)
    ensures
        severity == "Critical"@ || severity == "High"@ || severity == "Medium"@ || severity
            == "Low"@ ==> field(counts_value(findings), severity) == Some(
            JsonView::Number(NumberView::Integer(severity_count(findings, severity) as int)),
        ),
        severity != "Critical"@ && severity != "High"@ && severity != "Medium"@ && severity
            != "Low"@ ==> field(counts_value(findings), severity) is None,
{
    lemma_severities_differ();
}

/// A summary has a text, the counts and the highlights.
pub proof fn lemma_quick_summary_members(
    commits: Seq<SummaryCommit>,
    reply: Option<SummaryReply>,
    name: Seq<char>,
)
    ensures
        field(quick_summary(commits, reply), "text"@) == Some(
            JsonView::Text(summary_text(commits, reply)),
        ),
        field(quick_summary(commits, reply), "counts"@) == Some(
            counts_value(all_findings(commits)),
        ),
        field(quick_summary(commits, reply), "highlights"@) == Some(
            JsonView::List(summary_highlights(commits, reply)),
        ),
        name != "text"@ && name != "counts"@ && name != "highlights"@ ==> field(
            quick_summary(commits, reply),
            name,
        ) is None,
{
    reveal_strlit("text");
    reveal_strlit("counts");
    reveal_strlit("highlights");
    assert("text"@.len() == 4 && "counts"@.len() == 6 && "highlights"@.len() == 10);
}

/// What was written is known commit by commit, in the order in which it came.
pub proof fn lemma_mail_views(results: Seq<LkmlResult>)
    ensures
        lkml_views(results).len() == results.len(),
        forall|i: int| 0 <= i < results.len() ==> #[trigger] lkml_views(results)[i] == results[i]@,
        forall|i: int|
            0 <= i < results.len() ==> (#[trigger] lkml_views(results)[i]).index
                == results[i].index,
{
}

/// The commits and highlights of a summary are taken one by one, in their order.
pub proof fn lemma_summary_views(
    commits: Seq<(String, String, Json)>,
    highlights: Seq<QuickSummaryHighlight>,
)
    ensures
        summary_commits(commits).len() == commits.len(),
        forall|i: int|
            0 <= i < commits.len() ==> (#[trigger] summary_commits(commits)[i]).sha
                == commits[i].0@ && summary_commits(commits)[i].subject == commits[i].1@
                && summary_commits(commits)[i].findings == commits[i].2@,
        highlight_views(highlights).len() == highlights.len(),
        forall|i: int|
            0 <= i < highlights.len() ==> (#[trigger] highlight_views(highlights)[i]).finding_ref
                == highlights[i].finding_ref@ && highlight_views(highlights)[i].title
                == highlights[i].title@ && highlight_views(highlights)[i].question
                == highlights[i].question@,
{
}

/// The counts of findings are those of each severity and of all, whatever their severity.
pub proof fn lemma_severity_counts(counts: SeverityCounts, findings: Seq<JsonView>)
    requires
        counts_of(counts, findings),
    ensures
        counts.critical == severity_count(findings, "Critical"@),
        counts.high == severity_count(findings, "High"@),
        counts.medium == severity_count(findings, "Medium"@),
        counts.low == severity_count(findings, "Low"@),
        counts.total == findings.len(),
{
}

/// A summary is asked for if any commit has a finding, and its call used what it reported, if it
/// was answered.
pub proof fn lemma_summary_is_asked_for(
    commits: Seq<SummaryCommit>,
    response: QuickSummaryResponse,
    reason: String,
    usage: TokenUsage,
    wall_ms: u64,
)
    ensures
        asks_for_summary(commits) <==> exists|i: int|
            0 <= i < commits.len() && findings_of(#[trigger] commits[i]).len() > 0,
        summary_usage(SummaryReply::Answered { response, usage, wall_ms }) == usage,
        summary_usage(SummaryReply::Invalid { reason, usage, wall_ms }) == usage,
        summary_usage(SummaryReply::Failed { reason, wall_ms }) == no_usage(),
    decreases commits.len(),
{
    if commits.len() > 0 {
        let rest = commits.drop_last();
        lemma_summary_is_asked_for(rest, response, reason, usage, wall_ms);
        let n = commits.len() - 1;
        assert(commits[n] == commits.last());
        assert(forall|i: int| 0 <= i < n ==> #[trigger] rest[i] == commits[i]);
        if asks_for_summary(rest) {
            let i = choose|i: int|
                0 <= i < rest.len() && findings_of(#[trigger] rest[i]).len() > 0;
            assert(findings_of(commits[i]).len() > 0);
        }
        assert forall|i: int|
            0 <= i < commits.len()
                && findings_of(#[trigger] commits[i]).len() > 0 implies asks_for_summary(
            commits,
        ) by {
            if i < n {
                assert(findings_of(rest[i]).len() > 0);
            }
        }
    }
}

} // verus!
