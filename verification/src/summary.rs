//! The short summary of a whole run.

use vstd::prelude::*;
use crate::commit::get_or_empty;
use crate::json::{
    Json, JsonView, as_list, field, list_or_empty, number, takes_members, text_field,
    text_or_empty, views, with_field,
};
use crate::lkml::chosen_findings;
use crate::text::{copy_text, decimal, is_empty, push_decimal, push_text, same_text};
use crate::upstream::no_usage;
use crate::usage::{TokenUsage, call_step_value, usage_step_json};

verus! {

/// The most findings that a summary points out.
pub const QUICK_SUMMARY_MAX_HIGHLIGHTS: usize = 3;

/// A finding that the model points out.
#[derive(Debug, Clone)]
pub struct QuickSummaryHighlight {
    pub finding_ref: String,
    pub title: String,
    pub question: String,
}

/// What the model replied.
#[derive(Debug, Clone)]
pub struct QuickSummaryResponse {
    pub text: String,
    pub highlights: Vec<QuickSummaryHighlight>,
}

#[verifier::ext_equal]
pub struct HighlightView {
    pub finding_ref: Seq<char>,
    pub title: Seq<char>,
    pub question: Seq<char>,
}

impl QuickSummaryHighlight {
    pub open spec fn view(&self) -> HighlightView {
        HighlightView {
            finding_ref: self.finding_ref@,
            title: self.title@,
            question: self.question@,
        }
    }
}

pub open spec fn highlight_views(highlights: Seq<QuickSummaryHighlight>) -> Seq<HighlightView> {
    highlights.map_values(|h: QuickSummaryHighlight| h@)
}

/// A commit with its name, its subject and its findings.
#[verifier::ext_equal]
pub struct SummaryCommit {
    pub sha: Seq<char>,
    pub subject: Seq<char>,
    pub findings: JsonView,
}

pub open spec fn summary_commit(c: (String, String, Json)) -> SummaryCommit {
    SummaryCommit { sha: c.0@, subject: c.1@, findings: c.2@ }
}

pub open spec fn summary_commits(commits: Seq<(String, String, Json)>) -> Seq<SummaryCommit> {
    commits.map_values(|c: (String, String, Json)| summary_commit(c))
}

/// The findings of a commit, as far as they are a list.
pub open spec fn findings_of(c: SummaryCommit) -> Seq<JsonView> {
    match as_list(c.findings) {
        Some(findings) => findings,
        None => Seq::empty(),
    }
}

// ---------------------------------------------------------------------------------------------
// Findings by reference
// ---------------------------------------------------------------------------------------------

/// What refers to a finding: the commit's name and the finding's place among its findings.
pub open spec fn finding_reference(sha: Seq<char>, index: nat) -> Seq<char> {
    sha + ":"@ + decimal(index)
}

pub fn make_reference(sha: &str, index: usize) -> (r: String)
    ensures
        r@ == finding_reference(sha@, index as nat),
{
    let mut r = copy_text(sha);
    push_text(&mut r, ":");
    push_decimal(&mut r, index as u64);
    r
}

/// The place among a commit's findings that a reference names, from a given place on.
pub open spec fn place_in(c: SummaryCommit, reference: Seq<char>, from: int) -> Option<int>
    decreases findings_of(c).len() - from,
{
    if from < 0 || from >= findings_of(c).len() {
        None
    } else if reference == finding_reference(c.sha, from as nat) {
        Some(from)
    } else {
        place_in(c, reference, from + 1)
    }
}

/// The commit and the place among its findings that a reference names, from a given commit on.
pub open spec fn place_of(
    commits: Seq<SummaryCommit>,
    reference: Seq<char>,
    from: int,
) -> Option<(int, int)>
    decreases commits.len() - from,
{
    if from < 0 || from >= commits.len() {
        None
    } else {
        match place_in(commits[from], reference, 0) {
            Some(place) => Some((from, place)),
            None => place_of(commits, reference, from + 1),
        }
    }
}

fn find_finding(commits: &Vec<(String, String, Json)>, reference: &str) -> (r: Option<(usize, usize)>)
    ensures
        match r {
            Some((c, f)) => place_of(summary_commits(commits@), reference@, 0) == Some(
                (c as int, f as int),
            ),
            None => place_of(summary_commits(commits@), reference@, 0) is None,
        },
{
    let ghost all = summary_commits(commits@);
    let mut c: usize = 0;
    while c < commits.len()
        invariant
            c <= commits@.len(),
            all == summary_commits(commits@),
            place_of(all, reference@, 0) == place_of(all, reference@, c as int),
        decreases commits@.len() - c,
    {
        assert(all[c as int] == summary_commit(commits@[c as int]));
        if let Some(findings) = commits[c].2.as_list() {
            let mut f: usize = 0;
            while f < findings.len()
                invariant
                    f <= findings@.len(),
                    c < commits@.len(),
                    all == summary_commits(commits@),
                    findings_of(all[c as int]) == views(findings@),
                    all[c as int] == summary_commit(commits@[c as int]),
                    place_of(all, reference@, 0) == place_of(all, reference@, c as int),
                    place_in(all[c as int], reference@, 0) == place_in(
                        all[c as int],
                        reference@,
                        f as int,
                    ),
                decreases findings@.len() - f,
            {
                if same_text(reference, make_reference(commits[c].0.as_str(), f).as_str()) {
                    return Some((c, f));
                }
                f += 1;
            }
            assert(place_in(all[c as int], reference@, 0) is None);
        }
        c += 1;
    }
    None
}

/// The proper names of severities.
pub open spec fn is_severity(s: Seq<char>) -> bool {
    s == "Critical"@ || s == "High"@ || s == "Medium"@ || s == "Low"@
}

fn names_severity(s: &str) -> (r: bool)
    ensures
        r == is_severity(s@),
{
    same_text(s, "Critical") || same_text(s, "High") || same_text(s, "Medium") || same_text(s, "Low")
}

// ---------------------------------------------------------------------------------------------
// Highlights
// ---------------------------------------------------------------------------------------------

/// A highlight with the data of the finding that it refers to. The title and the question are the
/// model's, all else is the finding's.
pub open spec fn highlight_value(
    h: HighlightView,
    sha: Seq<char>,
    severity: Seq<char>,
    finding: JsonView,
) -> JsonView {
    let value = JsonView::Object(
        Map::empty().insert("finding_ref"@, JsonView::Text(h.finding_ref)).insert(
            "commit"@,
            JsonView::Text(sha),
        ).insert("severity"@, JsonView::Text(severity)).insert("title"@, JsonView::Text(h.title)).insert(
            "question"@,
            JsonView::Text(h.question),
        ),
    );
    match field(finding, "location"@) {
        Some(location) => with_field(value, "location"@, location),
        None => value,
    }
}

/// The highlight that the model's one stands for: none if it refers to no finding, or to one
/// without a proper severity.
pub open spec fn resolved_highlight(h: HighlightView, commits: Seq<SummaryCommit>) -> Option<JsonView> {
    match place_of(commits, h.finding_ref, 0) {
        Some((c, f)) => {
            let finding = findings_of(commits[c])[f];
            match text_field(finding, "severity"@) {
                Some(severity) if is_severity(severity) => Some(
                    highlight_value(h, commits[c].sha, severity, finding),
                ),
                _ => None,
            }
        },
        None => None,
    }
}

/// Whether one of the highlights refers to a finding already.
pub open spec fn is_highlighted(resolved: Seq<JsonView>, reference: Seq<char>) -> bool {
    exists|i: int|
        0 <= i < resolved.len() && text_field(#[trigger] resolved[i], "finding_ref"@) == Some(
            reference,
        )
}

/// The highlights of a summary: of the model's those that refer to findings, each finding once,
/// and no more than fit.
pub open spec fn resolved_highlights(
    highlights: Seq<HighlightView>,
    commits: Seq<SummaryCommit>,
) -> Seq<JsonView>
    decreases highlights.len(),
{
    if highlights.len() == 0 {
        Seq::empty()
    } else {
        let before = resolved_highlights(highlights.drop_last(), commits);
        let h = highlights.last();
        if before.len() >= QUICK_SUMMARY_MAX_HIGHLIGHTS || is_highlighted(before, h.finding_ref) {
            before
        } else {
            match resolved_highlight(h, commits) {
                Some(value) => before.push(value),
                None => before,
            }
        }
    }
}

fn resolve_highlight(h: &QuickSummaryHighlight, commits: &Vec<(String, String, Json)>) -> (r: Option<
    Json,
>)
    ensures
        match r {
            Some(value) => resolved_highlight(h@, summary_commits(commits@)) == Some(value@),
            None => resolved_highlight(h@, summary_commits(commits@)) is None,
        },
{
    let ghost all = summary_commits(commits@);
    let (c, f): (usize, usize) = match find_finding(commits, h.finding_ref.as_str()) {
        None => {
            return None;
        },
        Some(place) => place,
    };
    proof {
        lemma_place_of(all, h.finding_ref@, 0);
        assert(all[c as int] == summary_commit(commits@[c as int]));
    }
    let findings = match commits[c].2.as_list() {
        None => {
            return None;
        },
        Some(findings) => findings,
    };
    let finding = &findings[f];
    assert(findings_of(all[c as int])[f as int] == finding@);
    let severity = match finding.get_str("severity") {
        None => {
            return None;
        },
        Some(severity) => severity,
    };
    if !names_severity(severity) {
        return None;
    }
    let mut value = Json::object().with("finding_ref", Json::text(h.finding_ref.as_str())).with(
        "commit",
        Json::text(commits[c].0.as_str()),
    ).with("severity", Json::text(severity)).with("title", Json::text(h.title.as_str())).with(
        "question",
        Json::text(h.question.as_str()),
    );
    if let Some(location) = finding.get("location") {
        value.set("location", location.clone());
    }
    Some(value)
}

proof fn lemma_place_in(c: SummaryCommit, reference: Seq<char>, from: int)
    requires
        0 <= from,
    ensures
        place_in(c, reference, from) matches Some(f) ==> from <= f < findings_of(c).len() && reference
            == finding_reference(c.sha, f as nat),
    decreases findings_of(c).len() - from,
{
    if from < findings_of(c).len() && reference != finding_reference(c.sha, from as nat) {
        lemma_place_in(c, reference, from + 1);
    }
}

proof fn lemma_place_of(commits: Seq<SummaryCommit>, reference: Seq<char>, from: int)
    requires
        0 <= from,
    ensures
        place_of(commits, reference, from) matches Some((c, f)) ==> {
            &&& from <= c < commits.len()
            &&& 0 <= f < findings_of(commits[c]).len()
            &&& reference == finding_reference(commits[c].sha, f as nat)
        },
    decreases commits.len() - from,
{
    if from < commits.len() {
        lemma_place_in(commits[from], reference, 0);
        lemma_place_of(commits, reference, from + 1);
    }
}

fn highlights_finding(resolved: &Vec<Json>, reference: &str) -> (r: bool)
    ensures
        r == is_highlighted(views(resolved@), reference@),
{
    let mut i: usize = 0;
    while i < resolved.len()
        invariant
            i <= resolved@.len(),
            forall|k: int|
                0 <= k < i ==> text_field(#[trigger] views(resolved@)[k], "finding_ref"@) != Some(
                    reference@,
                ),
        decreases resolved@.len() - i,
    {
        assert(views(resolved@)[i as int] == resolved@[i as int]@);
        if let Some(known) = resolved[i].get_str("finding_ref") {
            if same_text(known, reference) {
                return true;
            }
        }
        i += 1;
    }
    false
}

/// Resolves the model's highlights: what they say of a finding is replaced by the finding's own
/// data, and those that refer to none are dropped.
pub fn resolve_quick_summary_highlights(
    response: &QuickSummaryResponse,
    commits: &Vec<(String, String, Json)>,
) -> (r: Vec<Json>)
    ensures
        views(r@) == resolved_highlights(
            highlight_views(response.highlights@),
            summary_commits(commits@),
        ),
{
    let ghost all = highlight_views(response.highlights@);
    let mut resolved: Vec<Json> = Vec::new();
    let mut i: usize = 0;
    assert(all.take(0) =~= Seq::<HighlightView>::empty());
    assert(views(resolved@) =~= Seq::<JsonView>::empty());
    while i < response.highlights.len()
        invariant
            i <= response.highlights@.len(),
            all == highlight_views(response.highlights@),
            views(resolved@) == resolved_highlights(
                all.take(i as int),
                summary_commits(commits@),
            ),
        decreases response.highlights@.len() - i,
    {
        let highlight = &response.highlights[i];
        proof {
            let next = all.take(i + 1);
            assert(next.drop_last() =~= all.take(i as int));
            assert(next.last() == highlight@);
            assert(views(resolved@).len() == resolved@.len());
        }
        if resolved.len() < QUICK_SUMMARY_MAX_HIGHLIGHTS && !highlights_finding(
            &resolved,
            highlight.finding_ref.as_str(),
        ) {
            if let Some(value) = resolve_highlight(highlight, commits) {
                let ghost before = views(resolved@);
                resolved.push(value);
                assert(views(resolved@) =~= before.push(value@));
            }
        }
        i += 1;
    }
    assert(all.take(i as int) =~= all);
    resolved
}

// ---------------------------------------------------------------------------------------------
// Counting
// ---------------------------------------------------------------------------------------------

/// A commit that a summary is about; none if it was only sized up or has no name.
pub open spec fn summarized(commit: JsonView) -> Option<SummaryCommit> {
    let sha = text_or_empty(commit, "sha"@);
    if field(commit, "dry_run"@) == Some(JsonView::Bool(true)) || sha.len() == 0 {
        None
    } else {
        Some(
            SummaryCommit {
                sha,
                subject: text_or_empty(commit, "subject"@),
                findings: chosen_findings(commit),
            },
        )
    }
}

/// The commits that a summary is about, in their order.
pub open spec fn all_summarized(commits: Seq<JsonView>) -> Seq<SummaryCommit>
    decreases commits.len(),
{
    if commits.len() == 0 {
        Seq::empty()
    } else {
        let before = all_summarized(commits.drop_last());
        match summarized(commits.last()) {
            Some(c) => before.push(c),
            None => before,
        }
    }
}

fn summarize(commit: &Json) -> (r: Option<(String, String, Json)>)
    ensures
        match r {
            Some(c) => summarized(commit@) == Some(summary_commit(c)),
            None => summarized(commit@) is None,
        },
{
    if let Some(dry_run) = commit.get("dry_run") {
        if let Some(true) = dry_run.as_bool() {
            return None;
        }
    }
    let sha = commit.str_or_empty("sha");
    if is_empty(sha.as_str()) {
        return None;
    }
    let findings = match commit.get("validated_findings") {
        Some(findings) => findings.clone(),
        None => get_or_empty(commit, "findings"),
    };
    Some((sha, commit.str_or_empty("subject"), findings))
}

/// Gathers the commits of a run that a summary is about.
pub fn summary_data(out: &Json) -> (r: Vec<(String, String, Json)>)
    ensures
        summary_commits(r@) == all_summarized(list_or_empty(out@, "commits"@)),
{
    let commits = out.list_or_empty("commits");
    let mut data: Vec<(String, String, Json)> = Vec::new();
    let mut i: usize = 0;
    assert(views(commits@).take(0) =~= Seq::<JsonView>::empty());
    assert(summary_commits(data@) =~= Seq::<SummaryCommit>::empty());
    while i < commits.len()
        invariant
            i <= commits@.len(),
            summary_commits(data@) == all_summarized(views(commits@).take(i as int)),
        decreases commits@.len() - i,
    {
        proof {
            let next = views(commits@).take(i + 1);
            assert(next.drop_last() =~= views(commits@).take(i as int));
            assert(next.last() == commits@[i as int]@);
        }
        if let Some(c) = summarize(&commits[i]) {
            let ghost before = summary_commits(data@);
            data.push(c);
            assert(summary_commits(data@) =~= before.push(summary_commit(c)));
        }
        i += 1;
    }
    assert(views(commits@).take(i as int) =~= views(commits@));
    data
}

/// The number of findings with a given severity.
pub open spec fn severity_count(findings: Seq<JsonView>, severity: Seq<char>) -> nat
    decreases findings.len(),
{
    if findings.len() == 0 {
        0
    } else {
        severity_count(findings.drop_last(), severity) + if text_field(
            findings.last(),
            "severity"@,
        ) == Some(severity) {
            1nat
        } else {
            0nat
        }
    }
}

/// All the findings that a summary is about, commit by commit.
pub open spec fn all_findings(commits: Seq<SummaryCommit>) -> Seq<JsonView>
    decreases commits.len(),
{
    if commits.len() == 0 {
        Seq::empty()
    } else {
        all_findings(commits.drop_last()) + findings_of(commits.last())
    }
}

/// The findings by severity.
#[derive(Debug, Clone, Copy, PartialEq, Eq, Structural)]
pub struct SeverityCounts {
    pub critical: u64,
    pub high: u64,
    pub medium: u64,
    pub low: u64,
    pub total: u64,
}

/// Whether the counts are those of the findings.
pub open spec fn counts_of(counts: SeverityCounts, findings: Seq<JsonView>) -> bool {
    &&& counts.critical == severity_count(findings, "Critical"@)
    &&& counts.high == severity_count(findings, "High"@)
    &&& counts.medium == severity_count(findings, "Medium"@)
    &&& counts.low == severity_count(findings, "Low"@)
    &&& counts.total == findings.len()
}

proof fn lemma_severity_count(findings: Seq<JsonView>, severity: Seq<char>)
    ensures
        severity_count(findings, severity) <= findings.len(),
    decreases findings.len(),
{
    if findings.len() > 0 {
        lemma_severity_count(findings.drop_last(), severity);
    }
}

proof fn lemma_severities_differ()
    ensures
        "Critical"@ != "High"@,
        "Critical"@ != "Medium"@,
        "Critical"@ != "Low"@,
        "High"@ != "Medium"@,
        "High"@ != "Low"@,
        "Medium"@ != "Low"@,
{
    reveal_strlit("Critical");
    reveal_strlit("High");
    reveal_strlit("Medium");
    reveal_strlit("Low");
    assert("Critical"@.len() == 8);
    assert("High"@.len() == 4);
    assert("Medium"@.len() == 6);
    assert("Low"@.len() == 3);
}

impl SeverityCounts {
    fn count(&mut self, finding: &Json, seen: Ghost<Seq<JsonView>>)
        requires
            counts_of(*old(self), seen@),
            seen@.len() < u64::MAX,
        ensures
            counts_of(*final(self), seen@.push(finding@)),
    {
        proof {
            lemma_severities_differ();
            lemma_severity_count(seen@, "Critical"@);
            lemma_severity_count(seen@, "High"@);
            lemma_severity_count(seen@, "Medium"@);
            lemma_severity_count(seen@, "Low"@);
            assert(seen@.push(finding@).drop_last() =~= seen@);
        }
        if let Some(severity) = finding.get_str("severity") {
            if same_text(severity, "Critical") {
                self.critical = self.critical + 1;
            } else if same_text(severity, "High") {
                self.high = self.high + 1;
            } else if same_text(severity, "Medium") {
                self.medium = self.medium + 1;
            } else if same_text(severity, "Low") {
                self.low = self.low + 1;
            }
        }
        self.total = self.total + 1;
    }
}

/// Counts the findings of a run by severity; none if they are more than can be counted.
pub fn count_severities(commits: &Vec<(String, String, Json)>) -> (r: Option<SeverityCounts>)
    ensures
        match r {
            Some(counts) => counts_of(counts, all_findings(summary_commits(commits@))),
            None => all_findings(summary_commits(commits@)).len() > u64::MAX,
        },
{
    let ghost all = summary_commits(commits@);
    let mut counts = SeverityCounts { critical: 0, high: 0, medium: 0, low: 0, total: 0 };
    let mut i: usize = 0;
    assert(all.take(0) =~= Seq::<SummaryCommit>::empty());
    while i < commits.len()
        invariant
            i <= commits@.len(),
            all == summary_commits(commits@),
            counts_of(counts, all_findings(all.take(i as int))),
        decreases commits@.len() - i,
    {
        let ghost before = all_findings(all.take(i as int));
        proof {
            let next = all.take(i + 1);
            assert(next.drop_last() =~= all.take(i as int));
            assert(next.last() == summary_commit(commits@[i as int]));
            assert(all_findings(next) == before + findings_of(all[i as int]));
        }
        match commits[i].2.as_list() {
            Some(findings) => {
                if findings.len() as u64 > u64::MAX - counts.total {
                    proof {
                        lemma_all_findings_grow(all, i + 1);
                        assert(views(findings@).len() == findings@.len());
                    }
                    return None;
                }
                let mut k: usize = 0;
                assert(before + views(findings@).take(0) =~= before);
                while k < findings.len()
                    invariant
                        k <= findings@.len(),
                        before.len() + findings@.len() <= u64::MAX,
                        counts_of(counts, before + views(findings@).take(k as int)),
                    decreases findings@.len() - k,
                {
                    let ghost seen = before + views(findings@).take(k as int);
                    proof {
                        assert(seen.len() == before.len() + k);
                        assert(seen.push(findings@[k as int]@) =~= before + views(findings@).take(
                            k + 1,
                        ));
                    }
                    counts.count(&findings[k], Ghost(seen));
                    k += 1;
                }
                assert(views(findings@).take(k as int) =~= findings_of(all[i as int]));
            },
            None => {
                assert(before + findings_of(all[i as int]) =~= before);
            },
        }
        i += 1;
    }
    assert(all.take(i as int) =~= all);
    Some(counts)
}

proof fn lemma_all_findings_grow(commits: Seq<SummaryCommit>, k: int)
    requires
        0 <= k <= commits.len(),
    ensures
        all_findings(commits.take(k)).len() <= all_findings(commits).len(),
    decreases commits.len() - k,
{
    if k < commits.len() {
        lemma_all_findings_grow(commits, k + 1);
        assert(commits.take(k + 1).drop_last() =~= commits.take(k));
    } else {
        assert(commits.take(k) =~= commits);
    }
}

// ---------------------------------------------------------------------------------------------
// The summary
// ---------------------------------------------------------------------------------------------

/// What came back from the model.
#[derive(Debug, Clone)]
pub enum SummaryReply {
    Answered { response: QuickSummaryResponse, usage: TokenUsage, wall_ms: u64 },
    /// The reply does not have the form that it must have.
    Invalid { reason: String, usage: TokenUsage, wall_ms: u64 },
    Failed { reason: String, wall_ms: u64 },
}

/// Whether the model is asked for a summary: only if there are findings.
pub open spec fn asks_for_summary(commits: Seq<SummaryCommit>) -> bool {
    all_findings(commits).len() > 0
}

/// What a call for a summary used.
pub open spec fn summary_usage(reply: SummaryReply) -> TokenUsage {
    match reply {
        SummaryReply::Answered { usage, .. } => usage,
        SummaryReply::Invalid { usage, .. } => usage,
        SummaryReply::Failed { .. } => no_usage(),
    }
}

/// The usage of a call for a summary, as it is recorded.
pub open spec fn summary_step_value(reply: SummaryReply) -> JsonView {
    match reply {
        SummaryReply::Answered { usage, wall_ms, .. } => call_step_value(
            "summary"@,
            usage,
            wall_ms,
            None,
        ),
        SummaryReply::Invalid { reason, usage, wall_ms } => call_step_value(
            "summary"@,
            usage,
            wall_ms,
            Some("invalid quick-summary response: "@ + reason@),
        ),
        SummaryReply::Failed { reason, wall_ms } => call_step_value(
            "summary"@,
            no_usage(),
            wall_ms,
            Some(reason@),
        ),
    }
}

impl SummaryReply {
    /// What the call used.
    pub fn usage(&self) -> (r: TokenUsage)
        ensures
            r == summary_usage(*self),
    {
        match self {
            SummaryReply::Answered { usage, .. } => *usage,
            SummaryReply::Invalid { usage, .. } => *usage,
            SummaryReply::Failed { .. } => TokenUsage::none(),
        }
    }

    /// The usage of the call, to be recorded.
    pub fn step(&self) -> (r: Json)
        ensures
            r@ == summary_step_value(*self),
    {
        match self {
            SummaryReply::Answered { usage, wall_ms, .. } => usage_step_json(
                "summary",
                *usage,
                *wall_ms,
                &None,
            ),
            SummaryReply::Invalid { reason, usage, wall_ms } => {
                let mut error = copy_text("invalid quick-summary response: ");
                push_text(&mut error, reason.as_str());
                usage_step_json("summary", *usage, *wall_ms, &Some(error))
            },
            SummaryReply::Failed { reason, wall_ms } => {
                let error = copy_text(reason.as_str());
                usage_step_json("summary", TokenUsage::none(), *wall_ms, &Some(error))
            },
        }
    }
}

/// The text of a summary. Where the model gave none, it counts commits and findings.
pub open spec fn summary_text(commits: Seq<SummaryCommit>, reply: Option<SummaryReply>) -> Seq<char> {
    if commits.len() == 0 {
        "No commits reviewed."@
    } else if !asks_for_summary(commits) {
        "No issues found across the reviewed commits."@
    } else {
        match reply {
            Some(SummaryReply::Answered { response, .. }) => response.text@,
            _ => "Reviewed "@ + decimal(commits.len()) + " commit(s); "@ + decimal(
                all_findings(commits).len(),
            ) + " finding(s) recorded."@,
        }
    }
}

/// The highlights of a summary.
pub open spec fn summary_highlights(commits: Seq<SummaryCommit>, reply: Option<SummaryReply>) -> Seq<
    JsonView,
> {
    if !asks_for_summary(commits) {
        Seq::empty()
    } else {
        match reply {
            Some(SummaryReply::Answered { response, .. }) => resolved_highlights(
                highlight_views(response.highlights@),
                commits,
            ),
            _ => Seq::empty(),
        }
    }
}

/// The number of findings of each severity.
pub open spec fn counts_value(findings: Seq<JsonView>) -> JsonView {
    JsonView::Object(
        Map::empty().insert(
            "Critical"@,
            number(severity_count(findings, "Critical"@) as int),
        ).insert("High"@, number(severity_count(findings, "High"@) as int)).insert(
            "Medium"@,
            number(severity_count(findings, "Medium"@) as int),
        ).insert("Low"@, number(severity_count(findings, "Low"@) as int)),
    )
}

/// The summary of a run.
pub open spec fn quick_summary(commits: Seq<SummaryCommit>, reply: Option<SummaryReply>) -> JsonView {
    JsonView::Object(
        Map::empty().insert("text"@, JsonView::Text(summary_text(commits, reply))).insert(
            "counts"@,
            counts_value(all_findings(commits)),
        ).insert("highlights"@, JsonView::List(summary_highlights(commits, reply))),
    )
}

proof fn lemma_no_commits(commits: Seq<SummaryCommit>)
    ensures
        commits.len() == 0 ==> all_findings(commits).len() == 0,
{
}

/// Whether the model is to be asked for a summary.
pub fn wants_summary(counts: &SeverityCounts) -> (r: bool)
    ensures
        r == (counts.total > 0),
{
    counts.total > 0
}

/// Records the summary of a run: from the commits, the counts of their findings, and the model's
/// reply where it was asked.
pub fn record_summary(
    out: &mut Json,
    commits: &Vec<(String, String, Json)>,
    counts: &SeverityCounts,
    reply: &Option<SummaryReply>,
)
    requires
        takes_members(old(out)@),
        counts_of(*counts, all_findings(summary_commits(commits@))),
    ensures
        final(out)@ == with_field(
            old(out)@,
            "summary"@,
            quick_summary(summary_commits(commits@), *reply),
        ),
{
    proof {
        lemma_no_commits(summary_commits(commits@));
    }
    let mut highlights: Vec<Json> = Vec::new();
    assert(views(highlights@) =~= Seq::<JsonView>::empty());
    let text = if commits.len() == 0 {
        copy_text("No commits reviewed.")
    } else if counts.total == 0 {
        copy_text("No issues found across the reviewed commits.")
    } else {
        match reply {
            Some(SummaryReply::Answered { response, .. }) => {
                highlights = resolve_quick_summary_highlights(response, commits);
                copy_text(response.text.as_str())
            },
            _ => {
                let mut text = copy_text("Reviewed ");
                push_decimal(&mut text, commits.len() as u64);
                push_text(&mut text, " commit(s); ");
                push_decimal(&mut text, counts.total);
                push_text(&mut text, " finding(s) recorded.");
                text
            },
        }
    };
    let by_severity = Json::object().with("Critical", Json::number(counts.critical)).with(
        "High",
        Json::number(counts.high),
    ).with("Medium", Json::number(counts.medium)).with("Low", Json::number(counts.low));
    let summary = Json::object().with("text", Json::text(text.as_str())).with(
        "counts",
        by_severity,
    ).with("highlights", Json::list(highlights));
    out.set("summary", summary);
}

// ---------------------------------------------------------------------------------------------
// Laws
// ---------------------------------------------------------------------------------------------

/// A summary points out no more findings than it may, and none twice.
pub proof fn lemma_highlights_are_few_and_distinct(
    highlights: Seq<HighlightView>,
    commits: Seq<SummaryCommit>,
)
    ensures
        resolved_highlights(highlights, commits).len() <= QUICK_SUMMARY_MAX_HIGHLIGHTS,
        forall|i: int, j: int|
            0 <= i < j < resolved_highlights(highlights, commits).len() ==> text_field(
                #[trigger] resolved_highlights(highlights, commits)[i],
                "finding_ref"@,
            ) != text_field(
                #[trigger] resolved_highlights(highlights, commits)[j],
                "finding_ref"@,
            ),
    decreases highlights.len(),
{
    if highlights.len() > 0 {
        lemma_highlights_are_few_and_distinct(highlights.drop_last(), commits);
        let before = resolved_highlights(highlights.drop_last(), commits);
        let after = resolved_highlights(highlights, commits);
        let h = highlights.last();
        if let Some(value) = resolved_highlight(h, commits) {
            lemma_highlight_value(h, commits);
            assert forall|i: int, j: int| 0 <= i < j < after.len() implies text_field(
                #[trigger] after[i],
                "finding_ref"@,
            ) != text_field(#[trigger] after[j], "finding_ref"@) by {
                assert(after[i] == before[i]);
                if j < before.len() {
                    assert(after[j] == before[j]);
                }
            }
        }
    }
}

/// A highlight tells of its finding what the findings themselves say: it refers to one of them,
/// and has that one's commit, severity and location.
pub proof fn lemma_highlight_value(h: HighlightView, commits: Seq<SummaryCommit>)
    ensures
        resolved_highlight(h, commits) matches Some(value) ==> exists|c: int, f: int|
            {
                &&& 0 <= c < commits.len()
                &&& 0 <= f < findings_of(commits[c]).len()
                &&& h.finding_ref == #[trigger] finding_reference(commits[c].sha, f as nat)
                &&& text_field(value, "commit"@) == Some(commits[c].sha)
                &&& text_field(value, "severity"@) == text_field(
                    findings_of(commits[c])[f],
                    "severity"@,
                )
                &&& field(value, "location"@) == field(findings_of(commits[c])[f], "location"@)
            },
        resolved_highlight(h, commits) matches Some(value) ==> {
            &&& text_field(value, "finding_ref"@) == Some(h.finding_ref)
            &&& text_field(value, "title"@) == Some(h.title)
            &&& text_field(value, "question"@) == Some(h.question)
            &&& text_field(value, "severity"@) matches Some(severity) && is_severity(severity)
        },
{
    reveal_strlit("finding_ref");
    reveal_strlit("commit");
    reveal_strlit("severity");
    reveal_strlit("title");
    reveal_strlit("question");
    reveal_strlit("location");
    assert("finding_ref"@.len() == 11);
    assert("commit"@.len() == 6);
    assert("severity"@.len() == 8);
    assert("title"@.len() == 5);
    assert("question"@.len() == 8 && "question"@[0] == 'q');
    assert("location"@.len() == 8 && "location"@[0] == 'l');
    assert("severity"@[0] == 's');
    lemma_place_of(commits, h.finding_ref, 0);
    if let Some((c, f)) = place_of(commits, h.finding_ref, 0) {
        assert(h.finding_ref == finding_reference(commits[c].sha, f as nat));
    }
}

/// The findings of proper severity are at most all the findings.
pub proof fn lemma_counts_are_within_total(findings: Seq<JsonView>)
    ensures
        severity_count(findings, "Critical"@) + severity_count(findings, "High"@) + severity_count(
            findings,
            "Medium"@,
        ) + severity_count(findings, "Low"@) <= findings.len(),
    decreases findings.len(),
{
    lemma_severities_differ();
    if findings.len() > 0 {
        lemma_counts_are_within_total(findings.drop_last());
    }
}

} // verus!
