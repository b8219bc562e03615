//! The review of one commit, stage by stage.
//!
//! [`Review`] holds what the stages have found so far and says which stage comes next. Whoever
//! runs the review asks the model, git and the mailing list, and hands back what they answered.

use vstd::prelude::*;
use crate::challenges::list_items;
use crate::findings::{
    combined_findings, combined_report, concern_requires_linkage_context, wants_linkage_context,
};
use crate::json::{
    Json, JsonView, as_list, copy_list, empty_object, field, list_or_empty, text_list, views,
    with_field,
};
use crate::text::{copy_text, opt_text, push_text, texts};
use crate::upstream::{
    Followup, FollowupStage, FollowupView, UpstreamFollowupResult, append_upstream_fix_findings,
    no_usage, with_fixes,
};
use crate::usage::{
    Counts, RunTotals, StageUsage, StageView, TokenUsage, call_counts, commit_usage_json,
    lemma_few_calls_fit, no_counts, plus, stage_counts, stage_value, stage_views, summary_value,
    usage_steps_array,
};

verus! {

/// What a review can use, and what there is for its specialist stages to do.
#[derive(Debug, Clone)]
pub struct ReviewOptions {
    /// Whether the model can look things up in the repository.
    pub tools: bool,
    /// Whether one complete pass is the whole review.
    pub single_pass: bool,
    /// Whether the fast pass runs before the stages.
    pub fast: bool,
    /// Whether an upstream branch is configured.
    pub has_branch: bool,
    /// Whether the mailing list can be searched.
    pub lore_active: bool,
    /// Whether the patch touches comments.
    pub touches_comments: bool,
    /// The specialist stages that there are instructions for.
    pub instructed: Vec<u8>,
}

/// What a review does next.
#[derive(Debug, Clone, Copy, PartialEq, Eq, Structural)]
pub enum ReviewStep {
    /// Select the guides of the subsystem.
    Subsystem,
    /// Look for what happened upstream.
    Followup,
    /// Build the reference, and fetch the source around the patch.
    Context,
    /// Ask for a complete review, and for nothing else.
    SinglePass,
    /// Ask for a complete review, before the stages.
    Fast,
    /// Ask for concerns.
    Broad,
    /// Put right the concerns that were attributed to the wrong text.
    Repair,
    /// Ask a specialist for concerns.
    Specialist(u8),
    /// Have the concerns turned into findings.
    Consolidate,
    /// Turn the concerns into findings without the model.
    Fallback,
    /// Nothing.
    Done,
}

/// What came back from the model.
#[derive(Debug, Clone)]
pub struct Reply {
    /// The reply, if it was usable.
    pub parsed: Option<Json>,
    pub usage: TokenUsage,
    pub wall_ms: u64,
    pub error: Option<String>,
}

/// What came back from outside.
#[derive(Debug, Clone)]
pub enum ReviewEvent {
    /// There is no index of subsystems to select guides from.
    NoSubsystemIndex,
    /// The guides that were selected; none if the model gave no usable reply.
    Guides { guides: Option<Vec<String>>, usage: TokenUsage, wall_ms: u64 },
    /// The guides could not be asked for.
    GuidesFailed { reason: String },
    /// The follow-up stage is over.
    Followup(Followup),
    /// The source around the patch, if there is any.
    Context { prefetch: Option<String> },
    /// The complete review, as the model wrote it.
    SinglePass { review: String, usage: TokenUsage, wall_ms: u64 },
    Reply { step: String, reply: Reply },
    /// The concerns, put right.
    Repaired(Json),
    /// The concerns as findings.
    Fallback(Json),
}

/// The state of a review.
#[verifier::ext_equal]
pub struct ReviewView {
    pub options: ReviewOptions,
    pub step: ReviewStep,
    /// The usage of the calls made.
    pub totals: Counts,
    /// The usage of the stages, in their order.
    pub usage: Seq<StageView>,
    /// The guides that were selected.
    pub guides: Option<Seq<Seq<char>>>,
    pub followup: Option<FollowupView>,
    /// The source around the patch.
    pub prefetch: Seq<char>,
    /// The findings of the fast pass and the fixes that upstream has.
    pub baseline: JsonView,
    /// The findings of the fast pass alone.
    pub fast_findings: Seq<JsonView>,
    /// The concerns of the broad pass: to be put right, and put right after that.
    pub broad: JsonView,
    /// The concerns of all stages so far.
    pub concerns: Seq<JsonView>,
    /// What the specialists hold against the findings of the fast pass.
    pub challenges: Seq<JsonView>,
    /// The findings made from the concerns.
    pub additional: JsonView,
    /// The complete review, where it is all there is.
    pub single_review: Option<Seq<char>>,
}

/// A report without findings.
pub open spec fn no_findings() -> JsonView {
    with_field(empty_object(), "findings"@, JsonView::List(Seq::empty()))
}

pub fn empty_report() -> (r: Json)
    ensures
        r@ == no_findings(),
{
    Json::object().with("findings", Json::empty_list())
}

// ---------------------------------------------------------------------------------------------
// The specialist stages
// ---------------------------------------------------------------------------------------------

/// Whether a specialist stage has something to do. The last one audits comments, so it runs only
/// if the patch touches some.
pub open spec fn stage_runs(options: ReviewOptions, stage: int) -> bool {
    &&& 3 <= stage <= 8
    &&& options.instructed@.contains(stage as u8)
    &&& stage == 8 ==> options.touches_comments
}

/// The first specialist stage that runs, from the given one on.
pub open spec fn next_stage(options: ReviewOptions, from: int) -> Option<u8>
    decreases 9 - from,
{
    if from > 8 {
        None
    } else if stage_runs(options, from) {
        Some(from as u8)
    } else {
        next_stage(options, from + 1)
    }
}

fn find_stage(options: &ReviewOptions, from: u8) -> (r: Option<u8>)
    requires
        3 <= from <= 9,
    ensures
        r == next_stage(*options, from as int),
{
    let mut stage: u8 = from;
    while stage <= 8
        invariant
            3 <= stage <= 9,
            next_stage(*options, from as int) == next_stage(*options, stage as int),
        decreases 9 - stage,
    {
        let mut found = false;
        let mut i: usize = 0;
        while i < options.instructed.len()
            invariant
                i <= options.instructed@.len(),
                found == options.instructed@.take(i as int).contains(stage),
            decreases options.instructed@.len() - i,
        {
            proof {
                let seen = options.instructed@.take(i as int);
                let next = options.instructed@.take(i + 1);
                assert(next =~= seen.push(options.instructed@[i as int]));
                if seen.contains(stage) {
                    let k = choose|k: int| 0 <= k < seen.len() && seen[k] == stage;
                    assert(next[k] == stage);
                }
                assert(next[i as int] == options.instructed@[i as int]);
            }
            if options.instructed[i] == stage {
                found = true;
            }
            i += 1;
        }
        assert(options.instructed@.take(i as int) =~= options.instructed@);
        if found && (stage != 8 || options.touches_comments) {
            return Some(stage);
        }
        stage += 1;
    }
    None
}

/// The checks in the repository that a reply must show.
#[derive(Debug, Clone, Copy, PartialEq, Eq, Structural)]
pub enum ToolVerification {
    /// None is needed.
    Optional,
    /// For each finding that is sensitive.
    SensitiveFindings,
    /// For each claim about linkage.
    Stage7Linkage,
    /// For each challenge to a finding of the fast pass.
    BaselineFalsePositiveProof,
    /// For both of these.
    Stage7LinkageAndBaselineFalsePositiveProof,
    /// For each finding, and for each challenge to one of the fast pass.
    ValidationFindingsAndBaselineChallenges,
}

/// What a specialist is shown besides the patch, and what is asked of the reply.
#[derive(Debug, Clone, Copy, PartialEq, Eq, Structural)]
pub struct SpecialistRequest {
    /// Whether it is shown the source around the patch.
    pub with_prefetch: bool,
    /// Whether it is shown the concerns of the broad pass and the digest of false positives.
    pub with_concerns: bool,
    /// Whether the reply must have the form that linkage claims need.
    pub linkage_form: bool,
    /// What must be checked in the repository; nothing where there are no tools.
    pub verification: Option<ToolVerification>,
    /// The number of the stage in the progress display.
    pub display_step: u32,
}

/// What a specialist is asked for. Only the linkage stage (7) is shown the source around the
/// patch; the audit of comments (8) is shown no concerns.
pub open spec fn request_for(stage: u8, tools: bool, fast_findings: nat) -> SpecialistRequest {
    SpecialistRequest {
        with_prefetch: stage == 7,
        with_concerns: stage != 8,
        linkage_form: stage == 7,
        verification: if !tools {
            None
        } else if stage == 7 && fast_findings > 0 {
            Some(ToolVerification::Stage7LinkageAndBaselineFalsePositiveProof)
        } else if stage == 7 {
            Some(ToolVerification::Stage7Linkage)
        } else if fast_findings > 0 {
            Some(ToolVerification::BaselineFalsePositiveProof)
        } else {
            Some(ToolVerification::Optional)
        },
        display_step: (stage + 1) as u32,
    }
}

pub fn specialist_request(stage: u8, tools: bool, fast_findings: usize) -> (r: SpecialistRequest)
    ensures
        r == request_for(stage, tools, fast_findings as nat),
{
    let verification = if !tools {
        None
    } else {
        Some(
            match (stage == 7, fast_findings == 0) {
                (true, false) => ToolVerification::Stage7LinkageAndBaselineFalsePositiveProof,
                (true, true) => ToolVerification::Stage7Linkage,
                (false, false) => ToolVerification::BaselineFalsePositiveProof,
                (false, true) => ToolVerification::Optional,
            },
        )
    };
    SpecialistRequest {
        with_prefetch: stage == 7,
        with_concerns: stage != 8,
        linkage_form: stage == 7,
        verification,
        display_step: stage as u32 + 1,
    }
}

/// How the model may use the repository.
#[derive(Debug, Clone)]
pub struct ToolLoopConfig {
    pub repo: String,
    pub verification: ToolVerification,
}

/// How the fast pass may use the repository: not at all without tools, and else every sensitive
/// finding must be checked there.
pub fn fast_review_tool_config(repo: &str, no_tools: bool) -> (r: Option<ToolLoopConfig>)
    ensures
        r is None <==> no_tools,
        r matches Some(config) ==> {
            &&& config.repo@ == repo@
            &&& config.verification == ToolVerification::SensitiveFindings
        },
{
    if no_tools {
        None
    } else {
        Some(
            ToolLoopConfig {
                repo: copy_text(repo),
                verification: ToolVerification::SensitiveFindings,
            },
        )
    }
}

// ---------------------------------------------------------------------------------------------
// The course of a review
// ---------------------------------------------------------------------------------------------

/// A review before its first stage.
pub open spec fn review_start(options: ReviewOptions) -> ReviewView {
    ReviewView {
        options,
        step: ReviewStep::Subsystem,
        totals: no_counts(),
        usage: Seq::empty(),
        guides: None,
        followup: None,
        prefetch: Seq::empty(),
        baseline: no_findings(),
        fast_findings: Seq::empty(),
        broad: JsonView::List(Seq::empty()),
        concerns: Seq::empty(),
        challenges: Seq::empty(),
        additional: no_findings(),
        single_review: None,
    }
}

/// The review with a call of the model counted.
pub open spec fn with_call(s: ReviewView, usage: TokenUsage) -> ReviewView {
    ReviewView { totals: plus(s.totals, call_counts(usage)), ..s }
}

/// The review with the usage of a stage recorded.
pub open spec fn with_stage(s: ReviewView, stage: StageView) -> ReviewView {
    ReviewView { usage: s.usage.push(stage), ..s }
}

/// The review with a reply of the model counted and recorded.
pub open spec fn with_reply(s: ReviewView, step: Seq<char>, reply: Reply) -> ReviewView {
    with_stage(
        with_call(s, reply.usage),
        StageView {
            step,
            usage: reply.usage,
            wall_ms: reply.wall_ms,
            error: opt_text(reply.error),
        },
    )
}

/// What comes after the selection of guides.
pub open spec fn after_subsystem(s: ReviewView) -> ReviewView {
    ReviewView {
        step: if s.options.has_branch || s.options.lore_active {
            ReviewStep::Followup
        } else {
            ReviewStep::Context
        },
        ..s
    }
}

/// The review with the findings of the fast pass, and behind them the fixes that upstream has.
pub open spec fn with_baseline(s: ReviewView, fast: JsonView) -> ReviewView {
    ReviewView {
        step: ReviewStep::Broad,
        fast_findings: list_or_empty(fast, "findings"@),
        baseline: match s.followup {
            Some(followup) => with_fixes(fast, followup.master_fixes),
            None => fast,
        },
        ..s
    }
}

/// What comes once the specialists before `from` have been asked. Without any concern there is
/// nothing to consolidate.
pub open spec fn after_specialist(s: ReviewView, from: int) -> ReviewView {
    ReviewView {
        step: match next_stage(s.options, from) {
            Some(stage) => ReviewStep::Specialist(stage),
            None => if s.concerns.len() == 0 {
                ReviewStep::Done
            } else {
                ReviewStep::Consolidate
            },
        },
        ..s
    }
}

/// The review with what a specialist replied. Without tools a challenge has no evidence and does
/// not count.
pub open spec fn with_specialist(s: ReviewView, parsed: JsonView) -> ReviewView {
    ReviewView {
        concerns: s.concerns + list_or_empty(parsed, "concerns"@),
        challenges: if s.options.tools {
            s.challenges + list_or_empty(parsed, "baseline_false_positives"@)
        } else {
            s.challenges
        },
        ..s
    }
}

/// The concerns of the broad pass.
pub open spec fn broad_concerns(parsed: Option<Json>) -> JsonView {
    match parsed {
        Some(parsed) => match field(parsed@, "concerns"@) {
            Some(concerns) => concerns,
            None => JsonView::List(Seq::empty()),
        },
        None => JsonView::List(Seq::empty()),
    }
}

/// What follows a reply of the model.
pub open spec fn review_replied(s: ReviewView, step: Seq<char>, reply: Reply) -> ReviewView {
    match s.step {
        ReviewStep::Fast => with_baseline(
            with_reply(s, "fast-review"@, reply),
            match reply.parsed {
                Some(parsed) => parsed@,
                None => no_findings(),
            },
        ),
        ReviewStep::Broad => ReviewView {
            step: ReviewStep::Repair,
            broad: broad_concerns(reply.parsed),
            ..with_reply(s, "concerns"@, reply)
        },
        ReviewStep::Specialist(stage) => after_specialist(
            match reply.parsed {
                Some(parsed) => with_specialist(with_reply(s, step, reply), parsed@),
                None => with_reply(s, step, reply),
            },
            stage + 1,
        ),
        ReviewStep::Consolidate => match reply.parsed {
            Some(parsed) => ReviewView {
                step: ReviewStep::Done,
                additional: parsed@,
                ..with_reply(s, "consolidation"@, reply)
            },
            None => ReviewView {
                step: ReviewStep::Fallback,
                ..with_reply(s, "consolidation"@, reply)
            },
        },
        _ => s,
    }
}

/// What follows an event. An event that the review does not wait for changes nothing.
pub open spec fn review_next(s: ReviewView, event: ReviewEvent) -> ReviewView {
    match (s.step, event) {
        (ReviewStep::Subsystem, ReviewEvent::NoSubsystemIndex) => after_subsystem(s),
        (ReviewStep::Subsystem, ReviewEvent::Guides { guides, usage, wall_ms }) => after_subsystem(
            match guides {
                Some(guides) => ReviewView {
                    guides: Some(texts(guides@)),
                    ..with_stage(
                        with_call(s, usage),
                        StageView { step: "subsystem"@, usage, wall_ms, error: None },
                    )
                },
                None => with_call(s, usage),
            },
        ),
        (ReviewStep::Subsystem, ReviewEvent::GuidesFailed { reason }) => after_subsystem(
            with_stage(
                s,
                StageView {
                    step: "subsystem"@,
                    usage: no_usage(),
                    wall_ms: 0,
                    error: Some(reason@),
                },
            ),
        ),
        (ReviewStep::Followup, ReviewEvent::Followup(followup)) => match followup@ {
            FollowupStage::Done { result, stage, called_model } => {
                let counted = match stage {
                    Some(stage) => if called_model {
                        with_stage(with_call(s, stage.usage), stage)
                    } else {
                        with_stage(s, stage)
                    },
                    None => s,
                };
                ReviewView { step: ReviewStep::Context, followup: result, ..counted }
            },
            _ => s,
        },
        (ReviewStep::Context, ReviewEvent::Context { prefetch }) => {
            let s = ReviewView {
                prefetch: match prefetch {
                    Some(prefetch) => prefetch@,
                    None => Seq::empty(),
                },
                ..s
            };
            if s.options.single_pass {
                ReviewView { step: ReviewStep::SinglePass, ..s }
            } else if s.options.fast {
                ReviewView { step: ReviewStep::Fast, ..s }
            } else {
                with_baseline(s, no_findings())
            }
        },
        (ReviewStep::SinglePass, ReviewEvent::SinglePass { review, usage, wall_ms }) => ReviewView {
            step: ReviewStep::Done,
            single_review: Some(review@),
            ..with_stage(
                with_call(s, usage),
                StageView { step: "fast-review"@, usage, wall_ms, error: None },
            )
        },
        (_, ReviewEvent::Reply { step, reply }) => review_replied(s, step@, reply),
        (ReviewStep::Repair, ReviewEvent::Repaired(concerns)) => after_specialist(
            ReviewView { broad: concerns@, concerns: list_items(concerns@), ..s },
            3,
        ),
        (ReviewStep::Fallback, ReviewEvent::Fallback(findings)) => ReviewView {
            step: ReviewStep::Done,
            additional: findings@,
            ..s
        },
        _ => s,
    }
}

// ---------------------------------------------------------------------------------------------
// Running a review
// ---------------------------------------------------------------------------------------------

#[derive(Debug)]
struct ReviewData {
    options: ReviewOptions,
    step: ReviewStep,
    totals: RunTotals,
    usage: Vec<StageUsage>,
    guides: Option<Vec<String>>,
    followup: Option<UpstreamFollowupResult>,
    prefetch: String,
    baseline: Json,
    fast_findings: Vec<Json>,
    broad: Json,
    concerns: Vec<Json>,
    challenges: Vec<Json>,
    additional: Json,
    single_review: Option<String>,
}

/// The review of one commit.
#[derive(Debug)]
pub struct Review {
    data: ReviewData,
}

/// An upper bound on the calls made before a step.
spec fn calls_before(step: ReviewStep) -> int {
    match step {
        ReviewStep::Subsystem => 0,
        ReviewStep::Followup => 1,
        ReviewStep::Context => 2,
        ReviewStep::SinglePass => 2,
        ReviewStep::Fast => 2,
        ReviewStep::Broad => 3,
        ReviewStep::Repair => 4,
        ReviewStep::Specialist(stage) => stage + 1,
        ReviewStep::Consolidate => 10,
        ReviewStep::Fallback => 11,
        ReviewStep::Done => 11,
    }
}

/// Whether the counts are those of at most `n` calls.
spec fn at_most_calls(c: Counts, n: int) -> bool {
    &&& c.api_calls <= n
    &&& c.prompt <= n * 0xffff_ffff
    &&& c.completion <= n * 0xffff_ffff
    &&& c.cache_creation <= n * 0xffff_ffff
    &&& c.cache_read <= n * 0xffff_ffff
}

impl ReviewData {
    spec fn view(&self) -> ReviewView {
        ReviewView {
            options: self.options,
            step: self.step,
            totals: self.totals@,
            usage: stage_views(self.usage@),
            guides: match self.guides {
                Some(guides) => Some(texts(guides@)),
                None => None,
            },
            followup: match self.followup {
                Some(followup) => Some(followup@),
                None => None,
            },
            prefetch: self.prefetch@,
            baseline: self.baseline@,
            fast_findings: views(self.fast_findings@),
            broad: self.broad@,
            concerns: views(self.concerns@),
            challenges: views(self.challenges@),
            additional: self.additional@,
            single_review: opt_text(self.single_review),
        }
    }

    /// Whether the data fit a review that has made at most `n` calls.
    spec fn fits(&self, n: int) -> bool {
        &&& at_most_calls(self.totals@, n)
        &&& self.usage@.len() <= n
        &&& self.step matches ReviewStep::Specialist(stage) ==> 3 <= stage <= 8
    }

    fn add_call(&mut self, usage: TokenUsage, n: Ghost<int>)
        requires
            old(self).fits(n@),
            0 <= n@ <= 10,
        ensures
            final(self)@ == with_call(old(self)@, usage),
            at_most_calls(final(self).totals@, n@ + 1),
            final(self).usage == old(self).usage,
            final(self).step == old(self).step,
    {
        self.totals.add_usage(usage);
    }

    fn add_stage(&mut self, stage: StageUsage)
        ensures
            final(self)@ == with_stage(old(self)@, stage@),
            final(self).usage@.len() == old(self).usage@.len() + 1,
            final(self).totals == old(self).totals,
            final(self).step == old(self).step,
    {
        let ghost before = stage_views(self.usage@);
        self.usage.push(stage);
        assert(stage_views(self.usage@) =~= before.push(stage@));
    }

    fn add_reply(
        &mut self,
        step: &str,
        usage: TokenUsage,
        wall_ms: u64,
        error: Option<String>,
        n: Ghost<int>,
    )
        requires
            old(self).fits(n@),
            0 <= n@ <= 10,
        ensures
            final(self)@ == with_stage(
                with_call(old(self)@, usage),
                StageView { step: step@, usage, wall_ms, error: opt_text(error) },
            ),
            final(self).fits(n@ + 1),
            final(self).step == old(self).step,
    {
        self.add_call(usage, n);
        self.add_stage(StageUsage::new(step, usage, wall_ms, error));
    }

    fn to_followup(&mut self)
        ensures
            final(self)@ == after_subsystem(old(self)@),
            final(self).totals == old(self).totals,
            final(self).usage == old(self).usage,
    {
        self.step = if self.options.has_branch || self.options.lore_active {
            ReviewStep::Followup
        } else {
            ReviewStep::Context
        };
    }

    fn set_baseline(&mut self, fast: Json)
        ensures
            final(self)@ == with_baseline(old(self)@, fast@),
            final(self).totals == old(self).totals,
            final(self).usage == old(self).usage,
    {
        self.fast_findings = fast.list_or_empty("findings");
        let mut baseline = fast;
        if let Some(followup) = &self.followup {
            let added: usize = append_upstream_fix_findings(&mut baseline, &followup.master_fixes);
        }
        self.baseline = baseline;
        self.step = ReviewStep::Broad;
    }

    fn to_specialist(&mut self, from: u8)
        requires
            3 <= from <= 9,
        ensures
            final(self)@ == after_specialist(old(self)@, from as int),
            final(self).totals == old(self).totals,
            final(self).usage == old(self).usage,
            final(self).step matches ReviewStep::Specialist(stage) ==> from <= stage <= 8,
    {
        proof {
            lemma_next_stage(self.options, from as int);
        }
        self.step = match find_stage(&self.options, from) {
            Some(stage) => ReviewStep::Specialist(stage),
            None => if self.concerns.len() == 0 {
                ReviewStep::Done
            } else {
                ReviewStep::Consolidate
            },
        };
    }

    fn add_specialist(&mut self, parsed: &Json)
        ensures
            final(self)@ == with_specialist(old(self)@, parsed@),
            final(self).totals == old(self).totals,
            final(self).usage == old(self).usage,
            final(self).step == old(self).step,
    {
        let mut concerns = parsed.list_or_empty("concerns");
        append_values(&mut self.concerns, &mut concerns);
        if self.options.tools {
            let mut challenges = parsed.list_or_empty("baseline_false_positives");
            append_values(&mut self.challenges, &mut challenges);
        }
    }
}

fn append_values(to: &mut Vec<Json>, from: &mut Vec<Json>)
    ensures
        views(final(to)@) == views(old(to)@) + views(old(from)@),
{
    let ghost a = to@;
    let ghost b = from@;
    to.append(from);
    assert(views(a + b) =~= views(a) + views(b));
}

proof fn lemma_next_stage(options: ReviewOptions, from: int)
    requires
        3 <= from,
    ensures
        next_stage(options, from) matches Some(stage) ==> from <= stage <= 8 && stage_runs(
            options,
            stage as int,
        ),
    decreases 9 - from,
{
    if from <= 8 && !stage_runs(options, from) {
        lemma_next_stage(options, from + 1);
    }
}

/// What the review of a commit gives.
#[derive(Debug, Clone)]
pub struct CommitReviewResult {
    /// The baseline: the findings of the fast pass and the fixes that upstream has.
    pub findings_val: Json,
    /// The findings that the stages add.
    pub additional_findings_val: Json,
    /// What the specialists hold against the findings of the fast pass.
    pub baseline_challenges_val: Json,
    pub usage_commit: Json,
    pub usage_steps: Option<Json>,
    pub phase0_selected_prompts: Option<Vec<String>>,
    /// What the findings are validated with.
    pub validation_context: String,
}

impl Review {
    pub closed spec fn view(&self) -> ReviewView {
        self.data@
    }

    #[verifier::type_invariant]
    spec fn calls_are_counted(&self) -> bool {
        self.data.fits(calls_before(self.data.step))
    }

    /// A review before its first stage.
    pub fn start(options: ReviewOptions) -> (r: Review)
        ensures
            r@ == review_start(options),
    {
        let data = ReviewData {
            options,
            step: ReviewStep::Subsystem,
            totals: RunTotals::new(),
            usage: Vec::new(),
            guides: None,
            followup: None,
            prefetch: String::new(),
            baseline: empty_report(),
            fast_findings: Vec::new(),
            broad: Json::list(Vec::new()),
            concerns: Vec::new(),
            challenges: Vec::new(),
            additional: empty_report(),
            single_review: None,
        };
        assert(data@ =~~= review_start(options));
        Review { data }
    }

    /// What comes next.
    pub fn step(&self) -> (r: ReviewStep)
        ensures
            r == self@.step,
    {
        self.data.step
    }

    /// Takes in what came back from outside. No failure of a stage stops the review.
    pub fn next(self, event: ReviewEvent) -> (r: Review)
        ensures
            r@ == review_next(self@, event),
    {
        proof {
            use_type_invariant(&self);
        }
        let ghost n = calls_before(self.data.step);
        let mut data = self.data;
        match (data.step, event) {
            (ReviewStep::Subsystem, ReviewEvent::NoSubsystemIndex) => {
                data.to_followup();
            },
            (ReviewStep::Subsystem, ReviewEvent::Guides { guides, usage, wall_ms }) => {
                match guides {
                    Some(guides) => {
                        data.add_reply("subsystem", usage, wall_ms, None, Ghost(n));
                        data.guides = Some(guides);
                    },
                    None => {
                        data.add_call(usage, Ghost(n));
                    },
                }
                data.to_followup();
            },
            (ReviewStep::Subsystem, ReviewEvent::GuidesFailed { reason }) => {
                data.add_stage(StageUsage::new("subsystem", TokenUsage::none(), 0, Some(reason)));
                data.to_followup();
            },
            (ReviewStep::Followup, ReviewEvent::Followup(followup)) => {
                if let Followup::Done { result, stage, called_model } = followup {
                    if let Some(stage) = stage {
                        if called_model {
                            data.add_call(stage.usage, Ghost(n));
                        }
                        data.add_stage(stage);
                    }
                    data.followup = result;
                    data.step = ReviewStep::Context;
                }
            },
            (ReviewStep::Context, ReviewEvent::Context { prefetch }) => {
                data.prefetch = match prefetch {
                    Some(prefetch) => prefetch,
                    None => String::new(),
                };
                if data.options.single_pass {
                    data.step = ReviewStep::SinglePass;
                } else if data.options.fast {
                    data.step = ReviewStep::Fast;
                } else {
                    data.set_baseline(empty_report());
                }
            },
            (ReviewStep::SinglePass, ReviewEvent::SinglePass { review, usage, wall_ms }) => {
                data.add_reply("fast-review", usage, wall_ms, None, Ghost(n));
                data.single_review = Some(review);
                data.step = ReviewStep::Done;
            },
            (ReviewStep::Fast, ReviewEvent::Reply { step: _, reply }) => {
                let Reply { parsed, usage, wall_ms, error } = reply;
                data.add_reply("fast-review", usage, wall_ms, error, Ghost(n));
                data.set_baseline(
                    match parsed {
                        Some(parsed) => parsed,
                        None => empty_report(),
                    },
                );
            },
            (ReviewStep::Broad, ReviewEvent::Reply { step: _, reply }) => {
                let Reply { parsed, usage, wall_ms, error } = reply;
                data.add_reply("concerns", usage, wall_ms, error, Ghost(n));
                data.broad = match parsed {
                    Some(parsed) => match parsed.get("concerns") {
                        Some(concerns) => concerns.clone(),
                        None => Json::empty_list(),
                    },
                    None => Json::empty_list(),
                };
                data.step = ReviewStep::Repair;
            },
            (ReviewStep::Specialist(stage), ReviewEvent::Reply { step, reply }) => {
                let Reply { parsed, usage, wall_ms, error } = reply;
                data.add_reply(step.as_str(), usage, wall_ms, error, Ghost(n));
                if let Some(parsed) = parsed {
                    data.add_specialist(&parsed);
                }
                data.to_specialist(stage + 1);
            },
            (ReviewStep::Consolidate, ReviewEvent::Reply { step: _, reply }) => {
                let Reply { parsed, usage, wall_ms, error } = reply;
                data.add_reply("consolidation", usage, wall_ms, error, Ghost(n));
                match parsed {
                    Some(parsed) => {
                        data.additional = parsed;
                        data.step = ReviewStep::Done;
                    },
                    None => {
                        data.step = ReviewStep::Fallback;
                    },
                }
            },
            (ReviewStep::Repair, ReviewEvent::Repaired(concerns)) => {
                data.concerns = match concerns.as_list() {
                    Some(items) => copy_list(items),
                    None => Vec::new(),
                };
                assert(views(data.concerns@) =~= list_items(concerns@));
                data.broad = concerns;
                data.to_specialist(3);
            },
            (ReviewStep::Fallback, ReviewEvent::Fallback(findings)) => {
                data.additional = findings;
                data.step = ReviewStep::Done;
            },
            _ => {},
        }
        Review { data }
    }

    /// The usage of the calls made so far.
    pub fn totals(&self) -> (r: RunTotals)
        ensures
            r@ == self@.totals,
    {
        self.data.totals
    }

    /// The usage of the stages so far, in their order.
    pub fn usage_steps(&self) -> (r: Json)
        ensures
            r@ == JsonView::List(self@.usage.map_values(|s: StageView| stage_value(s))),
    {
        usage_steps_array(&self.data.usage)
    }

    /// The text on what happened upstream that goes into the reference. It leaves out the fixes of
    /// the upstream branch where they become findings.
    pub fn reference_followup(&self) -> (r: Option<String>)
        ensures
            opt_text(r) == match self@.followup {
                Some(followup) => Some(
                    if self@.options.single_pass {
                        followup.summary + followup.master_summary
                    } else {
                        followup.summary
                    },
                ),
                None => None,
            },
    {
        match &self.data.followup {
            Some(followup) => Some(followup.review_context(self.data.options.single_pass)),
            None => None,
        }
    }

    /// The reference with the source around the patch, for the fast pass.
    pub fn complete_reference(&self, reference: &str) -> (r: String)
        ensures
            r@ == reference@ + self@.prefetch,
    {
        let mut r = copy_text(reference);
        push_text(&mut r, self.data.prefetch.as_str());
        r
    }

    /// The source around the patch.
    pub fn prefetch(&self) -> (r: &str)
        ensures
            r@ == self@.prefetch,
    {
        self.data.prefetch.as_str()
    }

    /// The guides that were selected.
    pub fn guides(&self) -> (r: Option<&Vec<String>>)
        ensures
            match r {
                Some(guides) => self@.guides == Some(texts(guides@)),
                None => self@.guides is None,
            },
    {
        match &self.data.guides {
            Some(guides) => Some(guides),
            None => None,
        }
    }

    /// The findings of the fast pass and the fixes that upstream has.
    pub fn baseline(&self) -> (r: &Json)
        ensures
            r@ == self@.baseline,
    {
        &self.data.baseline
    }

    /// The findings of the fast pass, as a list.
    pub fn fast_findings(&self) -> (r: Json)
        ensures
            r@ == JsonView::List(self@.fast_findings),
    {
        Json::list(copy_list(&self.data.fast_findings))
    }

    /// The concerns of the broad pass: to be put right, and put right after that.
    pub fn broad(&self) -> (r: &Json)
        ensures
            r@ == self@.broad,
    {
        &self.data.broad
    }

    /// The concerns of all stages so far, as a list.
    pub fn concerns(&self) -> (r: Json)
        ensures
            r@ == JsonView::List(self@.concerns),
    {
        Json::list(copy_list(&self.data.concerns))
    }

    /// What the specialist that comes next is asked for.
    pub fn specialist(&self) -> (r: Option<SpecialistRequest>)
        ensures
            r == match self@.step {
                ReviewStep::Specialist(stage) => Some(
                    request_for(stage, self@.options.tools, self@.fast_findings.len()),
                ),
                _ => None,
            },
    {
        match self.data.step {
            ReviewStep::Specialist(stage) => Some(
                specialist_request(stage, self.data.options.tools, self.data.fast_findings.len()),
            ),
            _ => None,
        }
    }

    /// The findings to show while the review runs; none before the fast pass is over.
    /// `from_concerns` are the concerns so far, as findings.
    pub fn published(&self, from_concerns: &Json) -> (r: Option<Json>)
        ensures
            match r {
                Some(report) => published_report(self@, from_concerns@) == Some(report@),
                None => published_report(self@, from_concerns@) is None,
            },
    {
        match self.data.step {
            ReviewStep::Subsystem
            | ReviewStep::Followup
            | ReviewStep::Context
            | ReviewStep::SinglePass
            | ReviewStep::Fast => None,
            _ => {
                assert(self@.concerns.len() == self.data.concerns@.len());
                if self.data.concerns.len() == 0 {
                    return Some(self.data.baseline.clone());
                }
                match self.data.step {
                    ReviewStep::Fallback | ReviewStep::Done => Some(
                        combined_findings(&self.data.baseline, &self.data.additional),
                    ),
                    _ => Some(combined_findings(&self.data.baseline, from_concerns)),
                }
            },
        }
    }

    /// The source around the patch for the consolidation: only where one of the concerns is about
    /// linkage.
    pub fn consolidation_context(&self) -> (r: String)
        ensures
            r@ == consolidation_prefetch(self@),
    {
        let mut i: usize = 0;
        while i < self.data.concerns.len()
            invariant
                i <= self.data.concerns@.len(),
                forall|k: int| 0 <= k < i ==> !wants_linkage_context(#[trigger] self@.concerns[k]),
            decreases self.data.concerns@.len() - i,
        {
            assert(self@.concerns[i as int] == self.data.concerns@[i as int]@);
            if concern_requires_linkage_context(&self.data.concerns[i]) {
                return copy_text(self.data.prefetch.as_str());
            }
            i += 1;
        }
        String::new()
    }

    /// What the review by stages gave, once it is over.
    pub fn finish(self) -> (r: Option<CommitReviewResult>)
        ensures
            match r {
                Some(result) => {
                    &&& self@.step is Done
                    &&& self@.single_review is None
                    &&& result.findings_val@ == self@.baseline
                    &&& result.additional_findings_val@ == self@.additional
                    &&& result.baseline_challenges_val@ == JsonView::List(self@.challenges)
                    &&& result.usage_commit@ == summary_value(stage_counts(self@.usage))
                    &&& result.usage_steps matches Some(steps) && steps@ == JsonView::List(
                        self@.usage.map_values(|s: StageView| stage_value(s)),
                    )
                    &&& self@.guides == match result.phase0_selected_prompts {
                        Some(guides) => Some(texts(guides@)),
                        None => None,
                    }
                    &&& result.validation_context@ == self@.prefetch
                },
                None => !(self@.step is Done) || self@.single_review is Some,
            },
    {
        proof {
            use_type_invariant(&self);
        }
        if !matches!(self.data.step, ReviewStep::Done) || self.data.single_review.is_some() {
            return None;
        }
        proof {
            let calls = stage_views(self.data.usage@).map_values(|s: StageView| s.usage);
            lemma_few_calls_fit(calls);
        }
        let usage_commit = commit_usage_json(&self.data.usage);
        let usage_steps = usage_steps_array(&self.data.usage);
        Some(
            CommitReviewResult {
                findings_val: self.data.baseline,
                additional_findings_val: self.data.additional,
                baseline_challenges_val: Json::list(self.data.challenges),
                usage_commit,
                usage_steps: Some(usage_steps),
                phase0_selected_prompts: self.data.guides,
                validation_context: self.data.prefetch,
            },
        )
    }

    /// The report of a review that was one complete pass, once it is over.
    pub fn finish_single(self, sha: &str) -> (r: Option<Json>)
        ensures
            match r {
                Some(report) => {
                    &&& self@.step is Done
                    &&& self@.single_review matches Some(review) && report@ == single_report(
                        sha@,
                        review,
                        self@.usage,
                        self@.guides,
                    )
                },
                None => !(self@.step is Done) || self@.single_review is None,
            },
    {
        proof {
            use_type_invariant(&self);
        }
        if !matches!(self.data.step, ReviewStep::Done) {
            return None;
        }
        let review = match &self.data.single_review {
            None => {
                return None;
            },
            Some(review) => review,
        };
        proof {
            let calls = stage_views(self.data.usage@).map_values(|s: StageView| s.usage);
            lemma_few_calls_fit(calls);
        }
        let report = Json::object().with("sha", Json::text(sha)).with("findings", Json::empty_list()).with(
            "_fast_review",
            Json::text(review.as_str()),
        ).with("usage", commit_usage_json(&self.data.usage)).with(
            "usage_steps",
            usage_steps_array(&self.data.usage),
        ).with("fast", Json::Bool(true));
        Some(add_guides(report, &self.data.guides))
    }

    /// How the next step may use the repository.
    pub fn tools(&self) -> (r: StepTools)
        ensures
            r == tools_for(self@),
    {
        if !self.data.options.tools {
            return StepTools::Off;
        }
        match self.data.step {
            ReviewStep::SinglePass | ReviewStep::Fast => StepTools::Requiring(
                ToolVerification::SensitiveFindings,
            ),
            ReviewStep::Broad => StepTools::On,
            ReviewStep::Specialist(stage) => {
                let request = specialist_request(stage, true, self.data.fast_findings.len());
                match request.verification {
                    Some(verification) => StepTools::Requiring(verification),
                    None => StepTools::Off,
                }
            },
            _ => StepTools::Off,
        }
    }

    /// The place of the next step in the progress display, as the number of the step and of the
    /// last one; none for steps that show nothing there.
    pub fn display(&self) -> (r: Option<(u32, u32)>)
        ensures
            r == display_of(self@),
    {
        proof {
            use_type_invariant(&self);
        }
        let last: u32 = if self.data.options.single_pass {
            2
        } else {
            10
        };
        match self.data.step {
            ReviewStep::Subsystem => Some((0, last)),
            ReviewStep::Followup => Some((1, last)),
            ReviewStep::SinglePass | ReviewStep::Fast => Some((2, last)),
            ReviewStep::Broad => Some((3, last)),
            ReviewStep::Specialist(stage) => Some((stage as u32 + 1, last)),
            ReviewStep::Consolidate => Some((10, last)),
            _ => None,
        }
    }
}

/// How a step may use the repository.
#[derive(Debug, Clone, Copy, PartialEq, Eq, Structural)]
pub enum StepTools {
    /// Not at all.
    Off,
    /// As it likes.
    On,
    /// Such that the reply shows the checks that it must.
    Requiring(ToolVerification),
}

/// How the next step may use the repository. The consolidation is never given tools: it is to
/// join and to rank what was found, and not to look into it again.
pub open spec fn tools_for(s: ReviewView) -> StepTools {
    if !s.options.tools {
        StepTools::Off
    } else {
        match s.step {
            ReviewStep::SinglePass | ReviewStep::Fast => StepTools::Requiring(
                ToolVerification::SensitiveFindings,
            ),
            ReviewStep::Broad => StepTools::On,
            ReviewStep::Specialist(stage) => match request_for(
                stage,
                true,
                s.fast_findings.len(),
            ).verification {
                Some(verification) => StepTools::Requiring(verification),
                None => StepTools::Off,
            },
            _ => StepTools::Off,
        }
    }
}

/// The place of the next step in the progress display.
pub open spec fn display_of(s: ReviewView) -> Option<(u32, u32)> {
    let last: u32 = if s.options.single_pass {
        2
    } else {
        10
    };
    match s.step {
        ReviewStep::Subsystem => Some((0, last)),
        ReviewStep::Followup => Some((1, last)),
        ReviewStep::SinglePass | ReviewStep::Fast => Some((2, last)),
        ReviewStep::Broad => Some((3, last)),
        ReviewStep::Specialist(stage) => Some(((stage + 1) as u32, last)),
        ReviewStep::Consolidate => Some((10, last)),
        _ => None,
    }
}

/// The report of a review that was one complete pass.
pub open spec fn single_report(
    sha: Seq<char>,
    review: Seq<char>,
    usage: Seq<StageView>,
    guides: Option<Seq<Seq<char>>>,
) -> JsonView {
    with_guides(
        JsonView::Object(
            Map::empty().insert("sha"@, JsonView::Text(sha)).insert(
                "findings"@,
                JsonView::List(Seq::empty()),
            ).insert("_fast_review"@, JsonView::Text(review)).insert(
                "usage"@,
                summary_value(stage_counts(usage)),
            ).insert(
                "usage_steps"@,
                JsonView::List(usage.map_values(|s: StageView| stage_value(s))),
            ).insert("fast"@, JsonView::Bool(true)),
        ),
        guides,
    )
}

/// A report with the guides that were selected, if there are any.
pub open spec fn with_guides(report: JsonView, guides: Option<Seq<Seq<char>>>) -> JsonView {
    match guides {
        Some(guides) if guides.len() > 0 => with_field(
            report,
            "phase0_selected_prompts"@,
            text_list(guides),
        ),
        _ => report,
    }
}

pub fn add_guides(report: Json, guides: &Option<Vec<String>>) -> (r: Json)
    ensures
        r@ == with_guides(
            report@,
            match guides {
                Some(guides) => Some(texts(guides@)),
                None => None,
            },
        ),
{
    match guides {
        Some(guides) => {
            assert(texts(guides@).len() == guides@.len());
            if guides.len() > 0 {
                report.with("phase0_selected_prompts", Json::text_list(guides.as_slice()))
            } else {
                report
            }
        },
        None => report,
    }
}

/// The findings to show while a review runs: the baseline once the fast pass is over, with the
/// concerns as findings as soon as there are any, and with the consolidated findings once there
/// was a reply for them.
pub open spec fn published_report(s: ReviewView, from_concerns: JsonView) -> Option<JsonView> {
    match s.step {
        ReviewStep::Subsystem
        | ReviewStep::Followup
        | ReviewStep::Context
        | ReviewStep::SinglePass
        | ReviewStep::Fast => None,
        _ => if s.concerns.len() == 0 {
            Some(s.baseline)
        } else {
            match s.step {
                ReviewStep::Fallback | ReviewStep::Done => Some(
                    combined_report(s.baseline, s.additional),
                ),
                _ => Some(combined_report(s.baseline, from_concerns)),
            }
        },
    }
}

/// The source around the patch, if one of the concerns is about linkage.
pub open spec fn consolidation_prefetch(s: ReviewView) -> Seq<char> {
    if exists|k: int| 0 <= k < s.concerns.len() && wants_linkage_context(#[trigger] s.concerns[k]) {
        s.prefetch
    } else {
        Seq::empty()
    }
}

} // verus!
