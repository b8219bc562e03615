//! What happened upstream to a commit under review: fixes that a configured branch holds for it,
//! and the summary of its discussion.

use vstd::prelude::*;
use crate::json::{Json, JsonView, list_or_empty, text_field, views, with_field};
use crate::challenges::reports_fix;
use crate::findings::{fix_sha, same_identity};
use crate::text::{
    chars_of, copy_text, first_chars, is_empty, opt_text, push_text, take_chars, trim,
    trim_chars,
};
use crate::usage::{StageUsage, StageView, TokenUsage};

verus! {

/// A commit of the upstream branch that names the reviewed commit in a `Fixes:` trailer.
#[derive(Debug, Clone)]
pub struct MasterFix {
    pub sha: String,
    pub subject: String,
    pub date: String,
}

/// A fix with its texts as sequences of characters.
#[verifier::ext_equal]
pub struct FixView {
    pub sha: Seq<char>,
    pub subject: Seq<char>,
    pub date: Seq<char>,
}

impl MasterFix {
    pub open spec fn view(&self) -> FixView {
        FixView { sha: self.sha@, subject: self.subject@, date: self.date@ }
    }
}

pub open spec fn fix_views(fixes: Seq<MasterFix>) -> Seq<FixView> {
    fixes.map_values(|f: MasterFix| f@)
}

// ---------------------------------------------------------------------------------------------
// Fixes as findings
// ---------------------------------------------------------------------------------------------

/// The first ten characters of a commit's name.
pub open spec fn short_name(sha: Seq<char>) -> Seq<char> {
    first_chars(sha, 10)
}

pub fn short_sha10(sha: &str) -> (r: String)
    ensures
        r@ == short_name(sha@),
{
    take_chars(sha, 10)
}

/// The finding that reports a fix.
pub open spec fn fix_finding(fix: FixView) -> JsonView {
    JsonView::Object(
        Map::empty().insert(
            "problem"@,
            JsonView::Text(
                "The reviewed commit has an upstream follow-up fix: "@ + short_name(fix.sha) + " "@
                    + fix.subject + "."@,
            ),
        ).insert("severity"@, JsonView::Text("High"@)).insert(
            "severity_explanation"@,
            JsonView::Text(
                "The configured upstream branch contains commit "@ + fix.sha
                    + " with a Fixes: trailer naming this reviewed commit. This is high-confidence evidence that upstream later corrected a regression introduced here."@,
            ),
        ).insert("source"@, JsonView::Text("upstream-fixes"@)).insert(
            "upstream_fix"@,
            JsonView::Object(
                Map::empty().insert("sha"@, JsonView::Text(fix.sha)).insert(
                    "subject"@,
                    JsonView::Text(fix.subject),
                ).insert("date"@, JsonView::Text(fix.date)),
            ),
        ),
    )
}

fn fix_finding_json(fix: &MasterFix) -> (r: Json)
    ensures
        r@ == fix_finding(fix@),
{
    let mut problem = copy_text("The reviewed commit has an upstream follow-up fix: ");
    push_text(&mut problem, short_sha10(fix.sha.as_str()).as_str());
    push_text(&mut problem, " ");
    push_text(&mut problem, fix.subject.as_str());
    push_text(&mut problem, ".");
    let mut why = copy_text("The configured upstream branch contains commit ");
    push_text(&mut why, fix.sha.as_str());
    push_text(
        &mut why,
        " with a Fixes: trailer naming this reviewed commit. This is high-confidence evidence that upstream later corrected a regression introduced here.",
    );
    let upstream = Json::object().with("sha", Json::text(fix.sha.as_str())).with(
        "subject",
        Json::text(fix.subject.as_str()),
    ).with("date", Json::text(fix.date.as_str()));
    Json::object().with("problem", Json::text(problem.as_str())).with(
        "severity",
        Json::text("High"),
    ).with("severity_explanation", Json::text(why.as_str())).with(
        "source",
        Json::text("upstream-fixes"),
    ).with("upstream_fix", upstream)
}

/// The findings that report the fixes.
pub open spec fn fix_findings(fixes: Seq<FixView>) -> Seq<JsonView> {
    fixes.map_values(|f: FixView| fix_finding(f))
}

/// A report with the fixes added behind its findings. A report without a list of findings gets
/// one.
pub open spec fn with_fixes(report: JsonView, fixes: Seq<FixView>) -> JsonView {
    if fixes.len() == 0 {
        report
    } else {
        with_field(
            report,
            "findings"@,
            JsonView::List(list_or_empty(report, "findings"@) + fix_findings(fixes)),
        )
    }
}

/// Adds each fix of the upstream branch as a finding, and counts them.
pub fn append_upstream_fix_findings(report: &mut Json, fixes: &Vec<MasterFix>) -> (r: usize)
    ensures
        final(report)@ == with_fixes(old(report)@, fix_views(fixes@)),
        r == fixes@.len(),
{
    if fixes.len() == 0 {
        return 0;
    }
    let mut findings = report.list_or_empty("findings");
    let ghost before = views(findings@);
    let mut added: usize = 0;
    while added < fixes.len()
        invariant
            added <= fixes@.len(),
            views(findings@) =~= before + fix_findings(fix_views(fixes@).take(added as int)),
        decreases fixes@.len() - added,
    {
        let finding = fix_finding_json(&fixes[added]);
        proof {
            let seen = fix_views(fixes@).take(added as int);
            let next = fix_views(fixes@).take(added + 1);
            assert(next =~= seen.push(fixes@[added as int]@));
            assert(fix_findings(next) =~= fix_findings(seen).push(finding@));
        }
        let ghost old_views = views(findings@);
        findings.push(finding);
        assert(views(findings@) =~= old_views.push(finding@));
        added += 1;
    }
    assert(fix_views(fixes@).take(added as int) =~= fix_views(fixes@));
    report.set("findings", Json::list(findings));
    added
}

/// Adding fixes keeps the findings that were there in front, adds one for each fix, rates
/// each of these high, and marks it as one that cannot be challenged.
pub proof fn lemma_fixes_are_added_behind(report: JsonView, fixes: Seq<FixView>)
    ensures
        ({
            let before = list_or_empty(report, "findings"@);
            let after = list_or_empty(with_fixes(report, fixes), "findings"@);
            &&& after.len() == before.len() + fixes.len()
            &&& after.take(before.len() as int) == before
            &&& forall|i: int|
                0 <= i < fixes.len() ==> {
                    &&& #[trigger] after[before.len() + i] == fix_finding(fixes[i])
                    &&& text_field(after[before.len() + i], "severity"@) == Some("High"@)
                    &&& reports_fix(after[before.len() + i])
                }
        }),
{
    let before = list_or_empty(report, "findings"@);
    let after = list_or_empty(with_fixes(report, fixes), "findings"@);
    assert(after =~= before + fix_findings(fixes));
    assert(after.take(before.len() as int) =~= before);
    assert forall|i: int| 0 <= i < fixes.len() implies #[trigger] after[before.len() + i]
        == fix_finding(fixes[i]) && text_field(after[before.len() + i], "severity"@) == Some("High"@)
        && reports_fix(after[before.len() + i]) by {
        lemma_fix_finding(fixes[i]);
    }
}

proof fn lemma_fix_finding(fix: FixView)
    ensures
        text_field(fix_finding(fix), "severity"@) == Some("High"@),
        reports_fix(fix_finding(fix)),
        fix_sha(fix_finding(fix)) == Some(fix.sha),
{
    reveal_strlit("severity");
    reveal_strlit("severity_explanation");
    reveal_strlit("source");
    reveal_strlit("upstream_fix");
    reveal_strlit("sha");
    reveal_strlit("subject");
    reveal_strlit("date");
    assert("severity"@.len() == 8);
    assert("severity_explanation"@.len() == 20);
    assert("source"@.len() == 6);
    assert("upstream_fix"@.len() == 12);
    assert("sha"@.len() == 3);
    assert("subject"@.len() == 7);
    assert("date"@.len() == 4);
}

/// Two findings of fixes are the same finding exactly if they report the same commit.
pub proof fn lemma_fix_identity(a: FixView, b: FixView)
    ensures
        same_identity(fix_finding(a), fix_finding(b)) <==> a.sha == b.sha,
{
    lemma_fix_finding(a);
    lemma_fix_finding(b);
}

// ---------------------------------------------------------------------------------------------
// The follow-up stage
// ---------------------------------------------------------------------------------------------

/// The fixes that the upstream branch holds, with the text that presents them.
#[derive(Debug, Clone)]
pub struct BranchFixes {
    pub fixes: Vec<MasterFix>,
    pub summary: String,
}

/// What the follow-up stage found.
#[derive(Debug, Clone)]
pub struct UpstreamFollowupResult {
    /// The model's summary of the discussion. Safe to show in every discovery pass.
    pub summary: String,
    /// The fixes of the configured branch as text. A normal review adds them as findings instead
    /// of having them found again.
    pub master_summary: String,
    pub master_fixes: Vec<MasterFix>,
}

/// What the follow-up stage found, with its texts as sequences of characters.
#[verifier::ext_equal]
pub struct FollowupView {
    pub summary: Seq<char>,
    pub master_summary: Seq<char>,
    pub master_fixes: Seq<FixView>,
}

impl UpstreamFollowupResult {
    pub open spec fn view(&self) -> FollowupView {
        FollowupView {
            summary: self.summary@,
            master_summary: self.master_summary@,
            master_fixes: fix_views(self.master_fixes@),
        }
    }

    /// The text for the discovery passes.
    pub fn review_context(&self, include_master_fixes: bool) -> (r: String)
        ensures
            r@ == if include_master_fixes {
                self.summary@ + self.master_summary@
            } else {
                self.summary@
            },
    {
        let mut r = copy_text(self.summary.as_str());
        if include_master_fixes {
            push_text(&mut r, self.master_summary.as_str());
        }
        r
    }
}

/// How far the follow-up stage of a commit has come, and so what it waits for.
#[derive(Debug, Clone)]
pub enum Followup {
    /// The commit's subject.
    Subject { has_branch: bool, lore_active: bool },
    /// The fixes of the upstream branch.
    Branch { lore_active: bool },
    /// The discussion on the mailing list.
    Lore { found: BranchFixes },
    /// The model's summary of the discussion.
    Model { found: BranchFixes },
    /// Nothing: the stage is over. Its usage is recorded unless it was skipped.
    Done { result: Option<UpstreamFollowupResult>, stage: Option<StageUsage>, called_model: bool },
}

/// What came back from outside. The times are those since the stage began, but for the model's.
#[derive(Debug, Clone)]
pub enum FollowupEvent {
    /// The commit's subject; none if it cannot be read.
    Subject { subject: Option<String>, wall_ms: u64 },
    /// The fixes of the upstream branch; none if it cannot be asked.
    Branch { found: Option<BranchFixes>, wall_ms: u64 },
    LoreFailed { reason: String, wall_ms: u64 },
    /// The number of messages, and the summary for the case that there are none.
    LoreAnswered { messages: usize, no_activity: String, wall_ms: u64 },
    /// The summary, rendered from the model's reply; none if there was no usable reply.
    Model { summary: Option<String>, usage: TokenUsage, wall_ms: u64, error: Option<String> },
}

#[verifier::ext_equal]
pub struct BranchView {
    pub fixes: Seq<FixView>,
    pub summary: Seq<char>,
}

impl BranchFixes {
    pub open spec fn view(&self) -> BranchView {
        BranchView { fixes: fix_views(self.fixes@), summary: self.summary@ }
    }

    fn nothing() -> (r: BranchFixes)
        ensures
            r@ == no_fixes(),
    {
        let r = BranchFixes { fixes: Vec::new(), summary: String::new() };
        assert(r@ =~= no_fixes());
        r
    }
}

pub open spec fn no_fixes() -> BranchView {
    BranchView { fixes: Seq::empty(), summary: Seq::empty() }
}

/// How far the stage has come, with texts as sequences of characters.
pub enum FollowupStage {
    Subject { has_branch: bool, lore_active: bool },
    Branch { lore_active: bool },
    Lore { found: BranchView },
    Model { found: BranchView },
    Done { result: Option<FollowupView>, stage: Option<StageView>, called_model: bool },
}

impl Followup {
    pub open spec fn view(&self) -> FollowupStage {
        match *self {
            Followup::Subject { has_branch, lore_active } => FollowupStage::Subject {
                has_branch,
                lore_active,
            },
            Followup::Branch { lore_active } => FollowupStage::Branch { lore_active },
            Followup::Lore { found } => FollowupStage::Lore { found: found@ },
            Followup::Model { found } => FollowupStage::Model { found: found@ },
            Followup::Done { result, stage, called_model } => FollowupStage::Done {
                result: match result {
                    Some(r) => Some(r@),
                    None => None,
                },
                stage: match stage {
                    Some(s) => Some(s@),
                    None => None,
                },
                called_model,
            },
        }
    }
}

/// The end of a stage that was skipped.
pub open spec fn followup_skipped() -> FollowupStage {
    FollowupStage::Done { result: None, stage: None, called_model: false }
}

/// The end of the stage. Without a summary of the discussion there is a result only if the
/// branch's fixes make a text.
pub open spec fn followup_over(
    found: BranchView,
    summary: Option<Seq<char>>,
    called_model: bool,
    usage: TokenUsage,
    wall_ms: u64,
    error: Option<Seq<char>>,
) -> FollowupStage {
    FollowupStage::Done {
        result: match summary {
            Some(summary) => Some(
                FollowupView {
                    summary,
                    master_summary: found.summary,
                    master_fixes: found.fixes,
                },
            ),
            None => if found.summary.len() > 0 {
                Some(
                    FollowupView {
                        summary: Seq::empty(),
                        master_summary: found.summary,
                        master_fixes: found.fixes,
                    },
                )
            } else {
                None
            },
        },
        stage: Some(StageView { step: "followup"@, usage, wall_ms, error }),
        called_model,
    }
}

/// A call that was not made reports nothing.
pub open spec fn no_usage() -> TokenUsage {
    TokenUsage { prompt: None, completion: None, cache_creation: None, cache_read: None }
}

/// What follows once the branch's fixes are known.
pub open spec fn followup_after_branch(
    found: BranchView,
    lore_active: bool,
    wall_ms: u64,
) -> FollowupStage {
    if lore_active {
        FollowupStage::Lore { found }
    } else {
        followup_over(found, None, false, no_usage(), wall_ms, None)
    }
}

/// What follows an event. An event that the stage does not wait for changes nothing.
pub open spec fn followup_next(state: FollowupStage, event: FollowupEvent) -> FollowupStage {
    match (state, event) {
        (
            FollowupStage::Subject { has_branch, lore_active },
            FollowupEvent::Subject { subject, wall_ms },
        ) => match subject {
            Some(subject) if trim(subject@).len() > 0 => if has_branch {
                FollowupStage::Branch { lore_active }
            } else {
                followup_after_branch(no_fixes(), lore_active, wall_ms)
            },
            _ => followup_skipped(),
        },
        (
            FollowupStage::Branch { lore_active },
            FollowupEvent::Branch { found, wall_ms },
        ) => followup_after_branch(
            match found {
                Some(found) => found@,
                None => no_fixes(),
            },
            lore_active,
            wall_ms,
        ),
        (FollowupStage::Lore { found }, FollowupEvent::LoreFailed { reason, wall_ms }) => followup_over(
            found,
            None,
            false,
            no_usage(),
            wall_ms,
            Some(reason@),
        ),
        (
            FollowupStage::Lore { found },
            FollowupEvent::LoreAnswered { messages, no_activity, wall_ms },
        ) => if messages == 0 {
            followup_over(found, Some(no_activity@), false, no_usage(), wall_ms, None)
        } else {
            FollowupStage::Model { found }
        },
        (
            FollowupStage::Model { found },
            FollowupEvent::Model { summary, usage, wall_ms, error },
        ) => followup_over(found, opt_text(summary), true, usage, wall_ms, opt_text(error)),
        _ => state,
    }
}

fn is_blank(s: &str) -> (r: bool)
    ensures
        r == (trim(s@).len() == 0),
{
    let chars = chars_of(s);
    trim_chars(chars.as_slice()).len() == 0
}

impl Followup {
    /// The stage of a commit, before anything was asked.
    pub fn start(has_branch: bool, lore_active: bool) -> (r: Followup)
        ensures
            r@ == (FollowupStage::Subject { has_branch, lore_active }),
    {
        Followup::Subject { has_branch, lore_active }
    }

    fn over(
        found: BranchFixes,
        summary: Option<String>,
        called_model: bool,
        usage: TokenUsage,
        wall_ms: u64,
        error: Option<String>,
    ) -> (r: Followup)
        ensures
            r@ == followup_over(found@, opt_text(summary), called_model, usage, wall_ms, opt_text(error)),
    {
        let stage = StageUsage::new("followup", usage, wall_ms, error);
        let result = match summary {
            Some(summary) => Some(
                UpstreamFollowupResult {
                    summary,
                    master_summary: found.summary,
                    master_fixes: found.fixes,
                },
            ),
            None => {
                if is_empty(found.summary.as_str()) {
                    None
                } else {
                    let summary = String::new();
                    Some(
                        UpstreamFollowupResult {
                            summary,
                            master_summary: found.summary,
                            master_fixes: found.fixes,
                        },
                    )
                }
            },
        };
        Followup::Done { result, stage: Some(stage), called_model }
    }

    fn after_branch(found: BranchFixes, lore_active: bool, wall_ms: u64) -> (r: Followup)
        ensures
            r@ == followup_after_branch(found@, lore_active, wall_ms),
    {
        if lore_active {
            Followup::Lore { found }
        } else {
            Followup::over(found, None, false, TokenUsage::none(), wall_ms, None)
        }
    }

    /// Takes in what came back from outside. Failures of what was asked end up in the stage's
    /// usage and never stop the review.
    pub fn next(self, event: FollowupEvent) -> (r: Followup)
        ensures
            r@ == followup_next(self@, event),
    {
        match (self, event) {
            (
                Followup::Subject { has_branch, lore_active },
                FollowupEvent::Subject { subject, wall_ms },
            ) => {
                let blank = match &subject {
                    Some(subject) => is_blank(subject.as_str()),
                    None => true,
                };
                if blank {
                    Followup::Done { result: None, stage: None, called_model: false }
                } else if has_branch {
                    Followup::Branch { lore_active }
                } else {
                    Followup::after_branch(BranchFixes::nothing(), lore_active, wall_ms)
                }
            },
            (Followup::Branch { lore_active }, FollowupEvent::Branch { found, wall_ms }) => {
                let found = match found {
                    Some(found) => found,
                    None => BranchFixes::nothing(),
                };
                Followup::after_branch(found, lore_active, wall_ms)
            },
            (Followup::Lore { found }, FollowupEvent::LoreFailed { reason, wall_ms }) => {
                Followup::over(found, None, false, TokenUsage::none(), wall_ms, Some(reason))
            },
            (
                Followup::Lore { found },
                FollowupEvent::LoreAnswered { messages, no_activity, wall_ms },
            ) => {
                if messages == 0 {
                    Followup::over(
                        found,
                        Some(no_activity),
                        false,
                        TokenUsage::none(),
                        wall_ms,
                        None,
                    )
                } else {
                    Followup::Model { found }
                }
            },
            (Followup::Model { found }, FollowupEvent::Model { summary, usage, wall_ms, error }) => {
                Followup::over(found, summary, true, usage, wall_ms, error)
            },
            (state, _) => state,
        }
    }
}

/// The fixes that were found on the branch and make a text are in the result, however the rest
/// of the stage ends.
pub proof fn lemma_branch_fixes_are_kept(found: BranchView, event: FollowupEvent)
    requires
        found.summary.len() > 0,
    ensures
        ({
            let after = followup_next(FollowupStage::Lore { found }, event);
            after matches FollowupStage::Done { result, .. } ==> {
                &&& result matches Some(r)
                &&& r.master_fixes == found.fixes
                &&& r.master_summary == found.summary
            }
        }),
        ({
            let after = followup_next(FollowupStage::Model { found }, event);
            after matches FollowupStage::Done { result, .. } ==> {
                &&& result matches Some(r)
                &&& r.master_fixes == found.fixes
                &&& r.master_summary == found.summary
            }
        }),
{
}

/// How many answers the stage can still wait for.
pub open spec fn followup_waits(state: FollowupStage) -> nat {
    match state {
        FollowupStage::Subject { .. } => 4,
        FollowupStage::Branch { .. } => 3,
        FollowupStage::Lore { .. } => 2,
        FollowupStage::Model { .. } => 1,
        FollowupStage::Done { .. } => 0,
    }
}

/// The stage comes to its end: every answer that it waits for brings it closer, no other event
/// does anything, and nothing follows the end.
pub proof fn lemma_followup_ends(state: FollowupStage, event: FollowupEvent)
    ensures
        followup_next(state, event) == state || followup_waits(followup_next(state, event))
            < followup_waits(state),
        state is Done ==> followup_next(state, event) == state,
        state is Subject && event is Subject ==> !(followup_next(state, event) is Subject),
        state is Branch && event is Branch ==> !(followup_next(state, event) is Branch),
        state is Lore && (event is LoreFailed || event is LoreAnswered) ==> !(followup_next(
            state,
            event,
        ) is Lore),
        state is Model && event is Model ==> followup_next(state, event) is Done,
{
}

/// The model is asked only about a discussion that has messages.
pub proof fn lemma_model_is_asked_about_messages(state: FollowupStage, event: FollowupEvent)
    requires
        !(state is Model),
        followup_next(state, event) is Model,
    ensures
        event matches FollowupEvent::LoreAnswered { messages, .. } && messages > 0,
        state is Lore,
{
}

} // verus!
