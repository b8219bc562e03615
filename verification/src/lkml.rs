//! The prose that is written for each commit from the findings that stay.

use vstd::prelude::*;
use crate::commit::{field_or_empty, get_or_empty};
use crate::json::{
    Json, JsonView, as_list, empty_object, field, list_field, list_or_empty, takes_members,
    text_field, text_or_empty, views, with_field,
};
use crate::text::{
    chars_of, copy_text, decimal, first_bytes, is_empty, opt_text, push_decimal, push_text,
    sha12, short12, trim, trim_chars, utf8_len,
};
use crate::upstream::no_usage;
use crate::usage::{
    RunTotals, StageUsage, StageView, TokenUsage, call_counts, calls_counts,
    lemma_few_calls_fit, plus, totals_step_value, usage_step_json_from_totals,
};

verus! {

// ---------------------------------------------------------------------------------------------
// What is written about a commit
// ---------------------------------------------------------------------------------------------

/// What the prose for a commit is made from.
#[derive(Debug, Clone)]
pub enum LkmlWork {
    /// The commit has no name, and nothing is written.
    Unnamed,
    /// There are no findings: what is written is known without the model.
    NoIssues,
    /// The review that was one complete pass.
    Review(String),
    /// The findings, as a report.
    Findings(Json),
}

/// What the prose for a commit is made from.
pub enum LkmlSource {
    Unnamed,
    NoIssues,
    Review(Seq<char>),
    Findings(JsonView),
}

impl LkmlWork {
    pub open spec fn view(&self) -> LkmlSource {
        match *self {
            LkmlWork::Unnamed => LkmlSource::Unnamed,
            LkmlWork::NoIssues => LkmlSource::NoIssues,
            LkmlWork::Review(review) => LkmlSource::Review(review@),
            LkmlWork::Findings(findings) => LkmlSource::Findings(findings@),
        }
    }
}

/// The findings to write about: the validated ones if there was a validation, else the raw ones.
pub open spec fn chosen_findings(commit: JsonView) -> JsonView {
    match field(commit, "validated_findings"@) {
        Some(findings) => findings,
        None => field_or_empty(commit, "findings"@),
    }
}

/// What the prose for a commit is made from. The text of a review in one pass comes first, unless
/// it is blank.
pub open spec fn lkml_source(commit: JsonView) -> LkmlSource {
    if text_or_empty(commit, "sha"@).len() == 0 {
        LkmlSource::Unnamed
    } else {
        match text_field(commit, "_fast_review"@) {
            Some(review) if trim(review).len() > 0 => LkmlSource::Review(review),
            _ => if as_list(chosen_findings(commit)) == Some(Seq::<JsonView>::empty()) {
                LkmlSource::NoIssues
            } else {
                LkmlSource::Findings(
                    with_field(empty_object(), "findings"@, chosen_findings(commit)),
                )
            },
        }
    }
}

pub fn lkml_work(commit: &Json) -> (r: LkmlWork)
    ensures
        r@ == lkml_source(commit@),
{
    let sha = commit.str_or_empty("sha");
    if is_empty(sha.as_str()) {
        return LkmlWork::Unnamed;
    }
    if let Some(review) = commit.get_str("_fast_review") {
        let chars = chars_of(review);
        if trim_chars(chars.as_slice()).len() > 0 {
            return LkmlWork::Review(copy_text(review));
        }
    }
    let chosen = match commit.get("validated_findings") {
        Some(findings) => findings.clone(),
        None => get_or_empty(commit, "findings"),
    };
    if let Some(findings) = chosen.as_list() {
        if findings.len() == 0 {
            assert(views(findings@) =~= Seq::<JsonView>::empty());
            return LkmlWork::NoIssues;
        }
        assert(views(findings@).len() == findings@.len());
    }
    LkmlWork::Findings(Json::object().with("findings", chosen))
}

/// The number of bytes of a text in UTF-8.
pub open spec fn utf8_size(s: Seq<char>) -> nat
    decreases s.len(),
{
    if s.len() == 0 {
        0
    } else {
        utf8_len(s[0]) + utf8_size(s.skip(1))
    }
}

/// Whether a commit's name is shorter than twelve bytes or a character ends there.
pub open spec fn name_can_be_cut(sha: Seq<char>) -> bool {
    utf8_size(sha) < 12 || first_bytes(sha, 12) is Some
}

/// What the progress display shows while the prose for a commit is written.
pub fn lkml_label(sha: &str) -> (r: String)
    requires
        name_can_be_cut(sha@),
    ensures
        r@ == "[lkml] "@ + short12(sha@),
{
    let mut r = copy_text("[lkml] ");
    push_text(&mut r, sha12(sha).as_str());
    r
}

// ---------------------------------------------------------------------------------------------
// What came of it
// ---------------------------------------------------------------------------------------------

/// What was written for a commit of the run.
#[derive(Debug, Clone)]
pub struct LkmlResult {
    pub index: usize,
    pub body: Option<String>,
    /// The usage of the model's call, if there was one.
    pub stage: Option<StageUsage>,
}

/// What was written for a commit of the run, with its texts as sequences of characters.
#[verifier::ext_equal]
pub struct LkmlView {
    pub index: nat,
    pub body: Option<Seq<char>>,
    pub stage: Option<StageView>,
}

impl LkmlResult {
    pub open spec fn view(&self) -> LkmlView {
        LkmlView {
            index: self.index as nat,
            body: opt_text(self.body),
            stage: match self.stage {
                Some(stage) => Some(stage@),
                None => None,
            },
        }
    }
}

pub open spec fn lkml_views(results: Seq<LkmlResult>) -> Seq<LkmlView> {
    results.map_values(|r: LkmlResult| r@)
}

/// What the model replied: the text, or why there is none.
#[derive(Debug, Clone)]
pub enum LkmlReply {
    Text { text: String, usage: TokenUsage, wall_ms: u64 },
    Failed { reason: String, wall_ms: u64 },
}

/// What is recorded for a commit. Where the model fails, a review in one pass stands in for the
/// prose.
pub open spec fn lkml_outcome(index: nat, source: LkmlSource, reply: LkmlReply) -> LkmlView {
    match source {
        LkmlSource::Unnamed => LkmlView { index, body: None, stage: None },
        LkmlSource::NoIssues => LkmlView {
            index,
            body: Some("No issues found."@),
            stage: None,
        },
        _ => match reply {
            LkmlReply::Text { text, usage, wall_ms } => LkmlView {
                index,
                body: Some(text@),
                stage: Some(StageView { step: "lkml"@, usage, wall_ms, error: None }),
            },
            LkmlReply::Failed { reason, wall_ms } => LkmlView {
                index,
                body: match source {
                    LkmlSource::Review(review) => Some(review),
                    _ => None,
                },
                stage: Some(
                    StageView {
                        step: "lkml"@,
                        usage: no_usage(),
                        wall_ms,
                        error: Some(reason@),
                    },
                ),
            },
        },
    }
}

/// Whether the model is asked at all.
pub open spec fn asks_model(source: LkmlSource) -> bool {
    source is Review || source is Findings
}

impl LkmlWork {
    /// Whether the model is asked.
    pub fn asks_model(&self) -> (r: bool)
        ensures
            r == asks_model(self@),
    {
        matches!(self, LkmlWork::Review(_) | LkmlWork::Findings(_))
    }

    /// What is recorded where the model is not asked.
    pub fn without_model(self, index: usize) -> (r: LkmlResult)
        requires
            !asks_model(self@),
        ensures
            forall|reply: LkmlReply| r@ == #[trigger] lkml_outcome(index as nat, self@, reply),
    {
        match self {
            LkmlWork::NoIssues => LkmlResult {
                index,
                body: Some(copy_text("No issues found.")),
                stage: None,
            },
            _ => LkmlResult { index, body: None, stage: None },
        }
    }

    /// What is recorded of the model's reply.
    pub fn replied(self, index: usize, reply: LkmlReply) -> (r: LkmlResult)
        requires
            asks_model(self@),
        ensures
            r@ == lkml_outcome(index as nat, self@, reply),
    {
        match reply {
            LkmlReply::Text { text, usage, wall_ms } => LkmlResult {
                index,
                body: Some(text),
                stage: Some(StageUsage::new("lkml", usage, wall_ms, None)),
            },
            LkmlReply::Failed { reason, wall_ms } => LkmlResult {
                index,
                body: match self {
                    LkmlWork::Review(review) => Some(review),
                    _ => None,
                },
                stage: Some(StageUsage::new("lkml", TokenUsage::none(), wall_ms, Some(reason))),
            },
        }
    }
}

/// A run's commits with what was written for one of them.
pub open spec fn with_body(commits: Seq<JsonView>, result: LkmlView) -> Seq<JsonView> {
    match result.body {
        Some(body) => commits.update(
            result.index as int,
            with_field(commits[result.index as int], "lkml_report"@, JsonView::Text(body)),
        ),
        None => commits,
    }
}

/// A run's commits with what was written for them.
pub open spec fn with_bodies(commits: Seq<JsonView>, results: Seq<LkmlView>) -> Seq<JsonView>
    decreases results.len(),
{
    if results.len() == 0 {
        commits
    } else {
        with_body(with_bodies(commits, results.drop_last()), results.last())
    }
}

/// Whether every result that has a text belongs to one of the commits, and that one takes members.
pub open spec fn bodies_fit(commits: Seq<JsonView>, results: Seq<LkmlView>) -> bool {
    forall|i: int|
        0 <= i < results.len() && (#[trigger] results[i]).body is Some ==> {
            &&& results[i].index < commits.len()
            &&& takes_members(commits[results[i].index as int])
        }
}

/// A run's report with what was written for its commits. One that has no list of commits stays as
/// it is.
pub open spec fn with_prose(out: JsonView, results: Seq<LkmlView>) -> JsonView {
    match list_field(out, "commits"@) {
        Some(commits) => with_field(
            out,
            "commits"@,
            JsonView::List(with_bodies(commits, results)),
        ),
        None => out,
    }
}

/// Records what was written for the commits of a run, in the order in which it came.
pub fn record_lkml(out: &mut Json, results: &Vec<LkmlResult>)
    requires
        bodies_fit(list_or_empty(old(out)@, "commits"@), lkml_views(results@)),
    ensures
        final(out)@ == with_prose(old(out)@, lkml_views(results@)),
{
    if out.get_list("commits").is_none() {
        return;
    }
    let mut commits = out.list_or_empty("commits");
    let ghost before = views(commits@);
    let ghost all = lkml_views(results@);
    let mut i: usize = 0;
    assert(all.take(0) =~= Seq::<LkmlView>::empty());
    while i < results.len()
        invariant
            i <= results@.len(),
            all == lkml_views(results@),
            bodies_fit(before, all),
            commits@.len() == before.len(),
            views(commits@) == with_bodies(before, all.take(i as int)),
        decreases results@.len() - i,
    {
        proof {
            let next = all.take(i + 1);
            assert(next.drop_last() =~= all.take(i as int));
            assert(next.last() == results@[i as int]@);
            assert(all[i as int] == results@[i as int]@);
        }
        if let Some(body) = &results[i].body {
            let at: usize = results[i].index;
            let changed = commits[at].clone().with("lkml_report", Json::text(body.as_str()));
            let ghost old_views = views(commits@);
            commits.set(at, changed);
            assert(views(commits@) =~= old_views.update(at as int, changed@));
        }
        i += 1;
    }
    assert(all.take(i as int) =~= all);
    out.set("commits", Json::list(commits));
}

/// The calls among the results.
pub open spec fn calls_made(results: Seq<LkmlView>) -> Seq<TokenUsage>
    decreases results.len(),
{
    if results.len() == 0 {
        Seq::empty()
    } else {
        let before = calls_made(results.drop_last());
        match results.last().stage {
            Some(stage) => before.push(stage.usage),
            None => before,
        }
    }
}

/// The number of calls that failed.
pub open spec fn calls_failed(results: Seq<LkmlView>) -> nat
    decreases results.len(),
{
    if results.len() == 0 {
        0
    } else {
        calls_failed(results.drop_last()) + match results.last().stage {
            Some(stage) => if stage.error is Some {
                1nat
            } else {
                0nat
            },
            None => 0nat,
        }
    }
}

proof fn lemma_calls_made(results: Seq<LkmlView>)
    ensures
        calls_failed(results) <= calls_made(results).len(),
        calls_counts(calls_made(results)).api_calls == calls_made(results).len(),
    decreases results.len(),
{
    if results.len() > 0 {
        lemma_calls_made(results.drop_last());
        if let Some(stage) = results.last().stage {
            let before = calls_made(results.drop_last());
            assert(before.push(stage.usage).drop_last() =~= before);
        }
    }
}

proof fn lemma_calls_made_grow(results: Seq<LkmlView>, k: int)
    requires
        0 <= k <= results.len(),
    ensures
        calls_made(results.take(k)).len() <= calls_made(results).len(),
    decreases results.len() - k,
{
    if k < results.len() {
        lemma_calls_made_grow(results, k + 1);
        assert(results.take(k + 1).drop_last() =~= results.take(k));
    } else {
        assert(results.take(k) =~= results);
    }
}

/// What writing the prose used.
pub fn lkml_totals(results: &Vec<LkmlResult>) -> (r: RunTotals)
    requires
        calls_made(lkml_views(results@)).len() <= u32::MAX,
    ensures
        r@ == calls_counts(calls_made(lkml_views(results@))),
{
    let ghost all = lkml_views(results@);
    let mut totals = RunTotals::new();
    let mut i: usize = 0;
    assert(all.take(0) =~= Seq::<LkmlView>::empty());
    while i < results.len()
        invariant
            i <= results@.len(),
            all == lkml_views(results@),
            calls_made(all).len() <= u32::MAX,
            totals@ == calls_counts(calls_made(all.take(i as int))),
        decreases results@.len() - i,
    {
        proof {
            let next = all.take(i + 1);
            assert(next.drop_last() =~= all.take(i as int));
            assert(next.last() == results@[i as int]@);
            lemma_calls_made(all.take(i as int));
            lemma_calls_made(next);
            lemma_calls_made_grow(all, i + 1);
        }
        if let Some(stage) = &results[i].stage {
            proof {
                let calls = calls_made(all.take(i as int)).push(stage.usage);
                assert(calls.drop_last() =~= calls_made(all.take(i as int)));
                assert(calls == calls_made(all.take(i + 1)));
                lemma_few_calls_fit(calls);
            }
            totals.add_usage(stage.usage);
        }
        i += 1;
    }
    assert(all.take(i as int) =~= all);
    totals
}

/// The name of the step: with the number of calls, if there was more than one.
pub open spec fn lkml_step_name(calls: nat) -> Seq<char> {
    if calls == 1 {
        "lkml"@
    } else {
        "lkml x"@ + decimal(calls)
    }
}

/// The error of the step, if calls failed.
pub open spec fn lkml_step_error(failed: nat) -> Option<Seq<char>> {
    if failed > 0 {
        Some(decimal(failed) + " LKML render call(s) failed; see per-commit LKML text"@)
    } else {
        None
    }
}

/// The usage of the step that wrote the prose; none if no call was made.
pub open spec fn lkml_step_value(results: Seq<LkmlView>, wall_ms: u64) -> Option<JsonView> {
    let calls = calls_made(results);
    if calls.len() == 0 {
        None
    } else {
        Some(
            totals_step_value(
                lkml_step_name(calls.len()),
                calls_counts(calls),
                wall_ms,
                lkml_step_error(calls_failed(results)),
            ),
        )
    }
}

fn count_failed(results: &Vec<LkmlResult>) -> (r: u64)
    requires
        calls_made(lkml_views(results@)).len() <= u32::MAX,
    ensures
        r == calls_failed(lkml_views(results@)),
{
    let ghost all = lkml_views(results@);
    let mut failed: u64 = 0;
    let mut i: usize = 0;
    assert(all.take(0) =~= Seq::<LkmlView>::empty());
    while i < results.len()
        invariant
            i <= results@.len(),
            all == lkml_views(results@),
            calls_made(all).len() <= u32::MAX,
            failed == calls_failed(all.take(i as int)),
        decreases results@.len() - i,
    {
        proof {
            let next = all.take(i + 1);
            assert(next.drop_last() =~= all.take(i as int));
            assert(next.last() == results@[i as int]@);
            lemma_calls_made(next);
            lemma_calls_made_grow(all, i + 1);
        }
        if let Some(stage) = &results[i].stage {
            if stage.error.is_some() {
                failed += 1;
            }
        }
        i += 1;
    }
    assert(all.take(i as int) =~= all);
    failed
}

/// The usage of the step that wrote the prose, to be recorded; none if no call was made.
pub fn lkml_step(results: &Vec<LkmlResult>, wall_ms: u64) -> (r: Option<Json>)
    requires
        calls_made(lkml_views(results@)).len() <= u32::MAX,
    ensures
        match r {
            Some(step) => lkml_step_value(lkml_views(results@), wall_ms) == Some(step@),
            None => lkml_step_value(lkml_views(results@), wall_ms) is None,
        },
{
    proof {
        lemma_calls_made(lkml_views(results@));
    }
    let totals = lkml_totals(results);
    if totals.api_calls == 0 {
        return None;
    }
    let failed = count_failed(results);
    let error = if failed > 0 {
        let mut text = String::new();
        push_decimal(&mut text, failed);
        push_text(&mut text, " LKML render call(s) failed; see per-commit LKML text");
        assert(text@ =~= decimal(failed as nat)
            + " LKML render call(s) failed; see per-commit LKML text"@);
        Some(text)
    } else {
        None
    };
    let name = if totals.api_calls == 1 {
        copy_text("lkml")
    } else {
        let mut name = copy_text("lkml x");
        push_decimal(&mut name, totals.api_calls as u64);
        name
    };
    Some(usage_step_json_from_totals(name.as_str(), &totals, wall_ms, &error))
}

// ---------------------------------------------------------------------------------------------
// Laws
// ---------------------------------------------------------------------------------------------

/// A commit with a name and without findings is reported to have no issues, and the model is not
/// asked about it.
pub proof fn lemma_no_findings_no_call(commit: JsonView)
    requires
        text_or_empty(commit, "sha"@).len() > 0,
        text_field(commit, "_fast_review"@) is None,
        chosen_findings(commit) == JsonView::List(Seq::empty()),
    ensures
        lkml_source(commit) == LkmlSource::NoIssues,
        !asks_model(lkml_source(commit)),
        forall|index: nat, reply: LkmlReply|
            (#[trigger] lkml_outcome(index, lkml_source(commit), reply)).body == Some(
                "No issues found."@,
            ),
{
}

/// The results for different commits can come in any order: recorded the other way round, two of
/// them give the same commits.
pub proof fn lemma_order_of_results(commits: Seq<JsonView>, a: LkmlView, b: LkmlView)
    requires
        a.index != b.index,
        a.index < commits.len(),
        b.index < commits.len(),
    ensures
        with_body(with_body(commits, a), b) == with_body(with_body(commits, b), a),
{
    assert(with_body(with_body(commits, a), b) =~= with_body(with_body(commits, b), a));
}

/// What is used for the prose does not depend on the order in which the results come.
pub proof fn lemma_order_of_usage(results: Seq<LkmlView>, a: LkmlView, b: LkmlView)
    ensures
        calls_counts(calls_made(results.push(a).push(b))) == calls_counts(
            calls_made(results.push(b).push(a)),
        ),
        calls_failed(results.push(a).push(b)) == calls_failed(results.push(b).push(a)),
{
    lemma_calls_pushed(results, a);
    lemma_calls_pushed(results.push(a), b);
    lemma_calls_pushed(results, b);
    lemma_calls_pushed(results.push(b), a);
}

proof fn lemma_calls_pushed(results: Seq<LkmlView>, a: LkmlView)
    ensures
        calls_counts(calls_made(results.push(a))) == match a.stage {
            Some(stage) => plus(calls_counts(calls_made(results)), call_counts(stage.usage)),
            None => calls_counts(calls_made(results)),
        },
        calls_failed(results.push(a)) == calls_failed(results) + match a.stage {
            Some(stage) => if stage.error is Some {
                1nat
            } else {
                0nat
            },
            None => 0nat,
        },
{
    assert(results.push(a).drop_last() =~= results);
    if let Some(stage) = a.stage {
        let before = calls_made(results);
        assert(before.push(stage.usage).drop_last() =~= before);
    }
}

} // verus!
