//! What holds of the check of a whole series, in terms of what was found and what was replied.

use vstd::prelude::*;
use crate::usage::{TokenUsage, call_step_value};
use crate::anchors::anchored;
use crate::challenges::undisputed;
use crate::diff_index::shown_lines;
use crate::finding_laws::{kept_before, lemma_unstruck_places};
use crate::findings::merged;
use crate::json::{Json, JsonView, field};
use crate::options::{ValidationMode, mode_name};
use crate::report_laws::is_member_or_empty;
use crate::review_laws::is_list_of;
use crate::text::{decimal, short12};
use crate::validation::{
    ValidationPayload, ValidationView, batch_name, batch_replied, batch_step,
    confirmed_challenges, entry_for, kept_additions, kept_baseline, payload_of, payload_views,
    payloads_of, replied_findings, taken_over, validated_commit, validated_run, with_commits,
    with_entries, with_mode,
};

verus! {

// ---------------------------------------------------------------------------------------------
// Replies
// ---------------------------------------------------------------------------------------------

/// Whether a reply is about the commit of the given name.
pub open spec fn is_about(entry: JsonView, sha: Seq<char>) -> bool {
    field(entry, "sha"@) == Some(JsonView::Text(sha))
}

/// Of the replies of a batch the last one about a commit is the one that is recorded for it, and
/// where no reply is about a commit what was recorded for it stays.
pub proof fn lemma_entries(
    entries: Map<Seq<char>, JsonView>,
    batch: Seq<JsonView>,
    sha: Seq<char>,
)
    ensures
        forall|i: int|
            0 <= i < batch.len() && is_about(#[trigger] batch[i], sha) && (forall|j: int|
                i < j < batch.len() ==> !is_about(#[trigger] batch[j], sha)) ==> with_entries(
                entries,
                batch,
            ).contains_key(sha) && with_entries(entries, batch)[sha] == batch[i],
        (forall|j: int| 0 <= j < batch.len() ==> !is_about(#[trigger] batch[j], sha)) ==> {
            &&& with_entries(entries, batch).contains_key(sha) == entries.contains_key(sha)
            &&& entries.contains_key(sha) ==> with_entries(entries, batch)[sha] == entries[sha]
        },
    decreases batch.len(),
{
    if batch.len() > 0 {
        let rest = batch.drop_last();
        lemma_entries(entries, rest, sha);
        let n = batch.len() - 1;
        assert(batch[n] == batch.last());
        assert(forall|i: int| 0 <= i < n ==> #[trigger] rest[i] == batch[i]);
        assert forall|i: int|
            0 <= i < batch.len() && is_about(#[trigger] batch[i], sha) && (forall|j: int|
                i < j < batch.len() ==> !is_about(#[trigger] batch[j], sha)) implies with_entries(
            entries,
            batch,
        ).contains_key(sha) && with_entries(entries, batch)[sha] == batch[i] by {
            if i < n {
                assert(rest[i] == batch[i]);
                assert forall|j: int| i < j < n implies !is_about(#[trigger] rest[j], sha) by {
                    assert(rest[j] == batch[j]);
                }
                assert(!is_about(batch[n], sha));
            }
        }
        if forall|j: int| 0 <= j < batch.len() ==> !is_about(#[trigger] batch[j], sha) {
            assert forall|j: int| 0 <= j < n implies !is_about(#[trigger] rest[j], sha) by {
                assert(rest[j] == batch[j]);
            }
            assert(!is_about(batch[n], sha));
        }
    }
}

/// After a usable reply to a batch, the last item of its list that is about a commit is recorded
/// for that commit, and nothing else changes. After an unusable one no reply changes, and the
/// commits of the batch are put behind the failed ones exactly if they had to be checked.
pub proof fn lemma_batch_replied(
    s: ValidationView,
    reply: Json,
    verification_failed: bool,
    shas: Seq<Seq<char>>,
    batch: Seq<JsonView>,
    sha: Seq<char>,
)
    requires
        field(reply@, "commits"@) == Some(JsonView::List(batch)) || (batch.len() == 0 && !(field(
            reply@,
            "commits"@,
        ) matches Some(JsonView::List(_)))),
    ensures
        ({
            let after = batch_replied(s, Some(reply), verification_failed, shas);
            &&& after.failed == s.failed
            &&& forall|i: int|
                0 <= i < batch.len() && is_about(#[trigger] batch[i], sha) && (forall|j: int|
                    i < j < batch.len() ==> !is_about(#[trigger] batch[j], sha))
                    ==> after.entries.contains_key(sha) && after.entries[sha] == batch[i]
            &&& (forall|j: int| 0 <= j < batch.len() ==> !is_about(#[trigger] batch[j], sha)) ==> {
                &&& after.entries.contains_key(sha) == s.entries.contains_key(sha)
                &&& s.entries.contains_key(sha) ==> after.entries[sha] == s.entries[sha]
            }
        }),
        ({
            let after = batch_replied(s, None, verification_failed, shas);
            &&& after.entries == s.entries
            &&& verification_failed ==> after.failed == s.failed + shas
            &&& !verification_failed ==> after.failed == s.failed
        }),
{
    if batch.len() == 0 {
        assert(batch =~= Seq::empty());
    }
    lemma_entries(s.entries, batch, sha);
}

// ---------------------------------------------------------------------------------------------
// What is sent
// ---------------------------------------------------------------------------------------------

/// Whether a text is that of a member; a member that is no text has an empty one.
pub open spec fn is_text_of(v: JsonView, name: Seq<char>, t: Seq<char>) -> bool {
    match field(v, name) {
        Some(JsonView::Text(s)) => t == s,
        _ => t.len() == 0,
    }
}

proof fn lemma_empty_text(t: Seq<char>)
    ensures
        t.len() == 0 ==> t == Seq::<char>::empty(),
{
    if t.len() == 0 {
        assert(t =~= Seq::empty());
    }
}

/// A commit is sent exactly if it has a name and has findings or challenges to be checked; what is
/// sent holds these in full, with the short and the full name, the subject, the context, the patch
/// and the findings that stand.
pub proof fn lemma_payload(
    commit: JsonView,
    sha: Seq<char>,
    subject: Seq<char>,
    context: Seq<char>,
    patch: Seq<char>,
    findings: Seq<JsonView>,
    challenges: Seq<JsonView>,
)
    requires
        is_text_of(commit, "sha"@, sha),
        is_text_of(commit, "subject"@, subject),
        is_text_of(commit, "_validation_context"@, context),
        is_text_of(commit, "patch"@, patch),
        is_list_of(commit, "_additional_findings"@, findings),
        is_list_of(commit, "_baseline_challenges"@, challenges),
    ensures
        payload_of(commit) is Some <==> sha.len() > 0 && (findings.len() > 0 || challenges.len()
            > 0),
        payload_of(commit) matches Some(p) ==> {
            &&& p.sha == short12(sha)
            &&& p.full_sha == sha
            &&& p.subject == subject
            &&& p.reference_context == context
            &&& p.diff == patch
            &&& is_member_or_empty(commit, "findings"@, p.baseline_findings)
            &&& p.baseline_challenges == JsonView::List(challenges)
            &&& p.findings == JsonView::List(findings)
        },
{
    lemma_empty_text(sha);
    lemma_empty_text(subject);
    lemma_empty_text(context);
    lemma_empty_text(patch);
    if findings.len() == 0 {
        assert(findings =~= Seq::empty());
    }
    if challenges.len() == 0 {
        assert(challenges =~= Seq::empty());
    }
}

/// Of one more commit what is to be sent is put behind the rest, if there is anything.
pub proof fn lemma_payloads_one_more(commits: Seq<JsonView>, commit: JsonView)
    ensures
        payloads_of(Seq::empty()).len() == 0,
        payloads_of(commits.push(commit)) == match payload_of(commit) {
            Some(payload) => payloads_of(commits).push(payload),
            None => payloads_of(commits),
        },
{
    assert(commits.push(commit).drop_last() =~= commits);
}

/// A batch is named by its number and by how many there are.
pub proof fn lemma_batch_name(batch: nat, batches: nat)
    ensures
        batch_name(batch, batches) == "findings-"@ + decimal(batch) + "/"@ + decimal(batches),
{
}

// ---------------------------------------------------------------------------------------------
// What becomes of the commits
// ---------------------------------------------------------------------------------------------

/// The reply for a commit is the one under its short name, or else the one under its full name.
pub proof fn lemma_entry_for(s: ValidationView, sha: Seq<char>)
    ensures
        s.entries.contains_key(short12(sha)) ==> entry_for(s, sha) == Some(
            s.entries[short12(sha)],
        ),
        !s.entries.contains_key(short12(sha)) && s.entries.contains_key(sha) ==> entry_for(s, sha)
            == Some(s.entries[sha]),
        !s.entries.contains_key(short12(sha)) && !s.entries.contains_key(sha) ==> entry_for(s, sha)
            is None,
{
}

/// All the findings of a reply count, in their order; their places are held to the patch, if there
/// is one.
pub proof fn lemma_replied_findings(entry: JsonView, patch: Seq<char>, findings: Seq<JsonView>)
    requires
        is_list_of(entry, "findings"@, findings),
    ensures
        replied_findings(entry, patch).len() == findings.len(),
        patch.len() == 0 ==> replied_findings(entry, patch) == findings,
        patch.len() > 0 ==> forall|i: int|
            0 <= i < findings.len() ==> #[trigger] replied_findings(entry, patch)[i] == anchored(
                findings[i],
                shown_lines(patch),
            ),
{
    if findings.len() == 0 {
        assert(findings =~= Seq::empty());
    }
}

/// Of a commit that was replied to, the findings of the reply are added; of one that was not, all
/// of its own, but for the sensitive ones if these had to be checked.
pub proof fn lemma_kept_additions(
    commit: JsonView,
    s: ValidationView,
    sensitive: Seq<bool>,
    sha: Seq<char>,
    patch: Seq<char>,
    findings: Seq<JsonView>,
)
    requires
        is_text_of(commit, "sha"@, sha),
        is_text_of(commit, "patch"@, patch),
        is_list_of(commit, "_additional_findings"@, findings),
        sensitive.len() == findings.len(),
    ensures
        entry_for(s, sha) matches Some(entry) ==> kept_additions(commit, s, sensitive)
            == replied_findings(entry, patch),
        entry_for(s, sha) is None && !s.failed.contains(short12(sha)) ==> kept_additions(
            commit,
            s,
            sensitive,
        ) == findings,
        entry_for(s, sha) is None && s.failed.contains(short12(sha)) ==> ({
            let struck = |i: int| sensitive[i];
            let kept = kept_additions(commit, s, sensitive);
            &&& kept.len() == kept_before(struck, findings.len() as int)
            &&& forall|i: int|
                0 <= i < findings.len() && !#[trigger] sensitive[i] ==> kept[kept_before(struck, i)]
                    == findings[i]
        }),
{
    lemma_empty_text(sha);
    lemma_empty_text(patch);
    if findings.len() == 0 {
        assert(findings =~= Seq::empty());
    }
    let struck = |i: int| sensitive[i];
    lemma_unstruck_places(findings, struck, findings.len() as int);
    assert forall|i: int| 0 <= i < findings.len()
        && !#[trigger] sensitive[i] implies !struck(i) by {}
}

/// Challenges are confirmed by the reply for the commit alone, and none are without tools.
pub proof fn lemma_confirmed_challenges(
    commit: JsonView,
    s: ValidationView,
    no_tools: bool,
    sha: Seq<char>,
    entry: JsonView,
    confirmed: Seq<JsonView>,
)
    requires
        is_text_of(commit, "sha"@, sha),
    ensures
        no_tools ==> confirmed_challenges(commit, s, no_tools).len() == 0,
        entry_for(s, sha) is None ==> confirmed_challenges(commit, s, no_tools).len() == 0,
        !no_tools && entry_for(s, sha) == Some(entry) && is_list_of(
            entry,
            "confirmed_false_positives"@,
            confirmed,
        ) ==> confirmed_challenges(commit, s, no_tools) == confirmed,
{
    lemma_empty_text(sha);
    if confirmed.len() == 0 {
        assert(confirmed =~= Seq::empty());
    }
}

/// Of the findings that stand those go that a challenge disproves which was proposed for the commit
/// and confirmed; what is no list stays as it is, and is null if it is missing.
pub proof fn lemma_kept_baseline(
    commit: JsonView,
    s: ValidationView,
    no_tools: bool,
    findings: Seq<JsonView>,
    proposed: Seq<JsonView>,
    other: JsonView,
)
    requires
        is_list_of(commit, "_baseline_challenges"@, proposed),
    ensures
        field(commit, "findings"@) == Some(JsonView::List(findings)) ==> kept_baseline(
            commit,
            s,
            no_tools,
        ) == JsonView::List(
            undisputed(findings, proposed, confirmed_challenges(commit, s, no_tools)),
        ),
        field(commit, "findings"@) == Some(other) && !(other is List) ==> kept_baseline(
            commit,
            s,
            no_tools,
        ) == other,
        field(commit, "findings"@) is None ==> kept_baseline(commit, s, no_tools)
            == JsonView::Null,
{
    if proposed.len() == 0 {
        assert(proposed =~= Seq::empty());
    }
}

/// A commit with a name gets the findings that stand, and these merged with the ones that were
/// kept; nothing else of it changes, and nothing at all of a commit without a name.
pub proof fn lemma_validated_commit(
    commit: JsonView,
    s: ValidationView,
    sensitive: Seq<bool>,
    no_tools: bool,
    sha: Seq<char>,
    standing: Seq<JsonView>,
    name: Seq<char>,
)
    requires
        is_text_of(commit, "sha"@, sha),
        kept_baseline(commit, s, no_tools) == JsonView::List(standing) || (standing.len() == 0
            && !(kept_baseline(commit, s, no_tools) is List)),
    ensures
        sha.len() == 0 ==> validated_commit(commit, s, sensitive, no_tools) == commit,
        sha.len() > 0 ==> ({
            let after = validated_commit(commit, s, sensitive, no_tools);
            &&& field(after, "findings"@) == Some(kept_baseline(commit, s, no_tools))
            &&& field(after, "validated_findings"@) == Some(
                JsonView::List(merged(standing, kept_additions(commit, s, sensitive))),
            )
            &&& name != "findings"@ && name != "validated_findings"@ ==> field(after, name)
                == field(commit, name)
        }),
{
    reveal_strlit("findings");
    reveal_strlit("validated_findings");
    assert("findings"@.len() == 8 && "validated_findings"@.len() == 18);
    lemma_empty_text(sha);
    if standing.len() == 0 {
        assert(standing =~= Seq::empty());
    }
}

/// Every commit of a run is taken in its place, the run says in which mode, and nothing else of it
/// changes.
pub proof fn lemma_validated_run(
    out: JsonView,
    s: ValidationView,
    sensitive: Seq<Vec<bool>>,
    no_tools: bool,
    mode: ValidationMode,
    commits: Seq<JsonView>,
    name: Seq<char>,
)
    requires
        field(out, "commits"@) == Some(JsonView::List(commits)),
    ensures
        ({
            let after = validated_run(out, s, sensitive, no_tools, mode);
            &&& field(after, "commits"@) matches Some(JsonView::List(l)) && l.len() == commits.len()
                && forall|i: int|
                0 <= i < commits.len() ==> #[trigger] l[i] == validated_commit(
                    commits[i],
                    s,
                    sensitive[i]@,
                    no_tools,
                )
            &&& field(after, "validation_mode"@) == Some(JsonView::Text(mode_name(mode)))
            &&& name != "commits"@ && name != "validation_mode"@ ==> field(after, name) == field(
                out,
                name,
            )
        }),
{
    reveal_strlit("commits");
    reveal_strlit("validation_mode");
    assert("commits"@.len() == 7 && "validation_mode"@.len() == 15);
}

/// Commits are put back only in the place of a list of commits: another value stays, and null
/// stands where there is none.
pub proof fn lemma_commits_put_back(
    out: JsonView,
    commits: Seq<JsonView>,
    before: Seq<JsonView>,
    other: JsonView,
    name: Seq<char>,
)
    ensures
        field(out, "commits"@) == Some(JsonView::List(before)) ==> field(
            with_commits(out, commits),
            "commits"@,
        ) == Some(JsonView::List(commits)),
        field(out, "commits"@) == Some(other) && !(other is List) ==> with_commits(out, commits)
            == out,
        field(out, "commits"@) is None ==> field(with_commits(out, commits), "commits"@) == Some(
            JsonView::Null,
        ),
        name != "commits"@ ==> field(with_commits(out, commits), name) == field(out, name),
{
}

/// Without a check the findings that stand are taken over as they are.
pub proof fn lemma_taken_over(commit: JsonView, name: Seq<char>)
    ensures
        field(taken_over(commit), "validated_findings"@) matches Some(x) && is_member_or_empty(
            commit,
            "findings"@,
            x,
        ),
        name != "validated_findings"@ ==> field(taken_over(commit), name) == field(commit, name),
{
}

/// A run is marked with the mode by its name.
pub proof fn lemma_mode_is_marked(out: JsonView, mode: ValidationMode, name: Seq<char>)
    ensures
        field(with_mode(out, mode), "validation_mode"@) == Some(JsonView::Text(mode_name(mode))),
        name != "validation_mode"@ ==> field(with_mode(out, mode), name) == field(out, name),
{
}

/// What is sent is all that was collected, in its order, and each call is recorded under the name
/// of its batch.
pub proof fn lemma_payload_views(
    payloads: Seq<ValidationPayload>,
    batch: nat,
    batches: nat,
    usage: TokenUsage,
    wall_ms: u64,
    error: Option<Seq<char>>,
)
    ensures
        payload_views(payloads).len() == payloads.len(),
        forall|i: int|
            0 <= i < payloads.len() ==> #[trigger] payload_views(payloads)[i] == payloads[i]@,
        batch_step(batch, batches, usage, wall_ms, error) == call_step_value(
            "findings-"@ + decimal(batch) + "/"@ + decimal(batches),
            usage,
            wall_ms,
            error,
        ),
{
}

} // verus!
