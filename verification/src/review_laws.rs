//! What holds of every review of a commit, whatever the outside answers.

use vstd::prelude::*;
use crate::findings::{combined_report, wants_linkage_context};
use crate::json::{Json, JsonView, field, list_or_empty};
use crate::review::{
    Reply, ReviewEvent, ReviewOptions, ReviewStep, ReviewView, StepTools, ToolVerification,
    consolidation_prefetch, display_of, next_stage, no_findings, published_report, request_for,
    review_next, review_start, stage_runs, tools_for,
};
use crate::text::{opt_text, texts, trim};
use crate::upstream::{
    BranchFixes, BranchView, Followup, FollowupEvent, FollowupStage, FollowupView, fix_findings,
    followup_next, no_usage, with_fixes,
};
use crate::usage::{StageView, TokenUsage, call_counts, plus};

verus! {

/// The review after a sequence of events.
pub open spec fn review_after(options: ReviewOptions, events: Seq<ReviewEvent>) -> ReviewView
    decreases events.len(),
{
    if events.len() == 0 {
        review_start(options)
    } else {
        review_next(review_after(options, events.drop_last()), events.last())
    }
}

/// Whether the fast pass is still ahead or under way.
pub open spec fn before_broad(step: ReviewStep) -> bool {
    step is Subsystem || step is Followup || step is Context || step is SinglePass || step is Fast
}

/// Whether the concerns are still being waited for.
pub open spec fn before_concerns(step: ReviewStep) -> bool {
    before_broad(step) || step is Broad || step is Repair
}

/// The fixes that the follow-up stage found.
pub open spec fn found_fixes(s: ReviewView) -> Seq<JsonView> {
    match s.followup {
        Some(followup) => fix_findings(followup.master_fixes),
        None => Seq::empty(),
    }
}

/// What holds of a review at any time.
pub open spec fn review_holds(s: ReviewView) -> bool {
    &&& s.step matches ReviewStep::Specialist(stage) ==> stage_runs(s.options, stage as int)
    &&& before_concerns(s.step) ==> s.concerns.len() == 0 && s.challenges.len() == 0
    &&& !s.options.tools ==> s.challenges.len() == 0
    &&& s.step is Consolidate || s.step is Fallback ==> s.concerns.len() > 0
    &&& !(s.step is Done) ==> s.additional == no_findings()
    &&& s.concerns.len() == 0 ==> s.additional == no_findings()
    &&& before_broad(s.step) ==> s.fast_findings.len() == 0
    &&& s.single_review is Some ==> s.options.single_pass && s.step is Done
    &&& s.step is SinglePass ==> s.options.single_pass
    &&& s.step is Fast ==> !s.options.single_pass
    &&& s.options.single_pass ==> before_broad(s.step) || s.single_review is Some
    &&& s.options.single_pass ==> s.concerns.len() == 0 && s.fast_findings.len() == 0
    &&& !before_broad(s.step) && !s.options.single_pass ==> list_or_empty(
        s.baseline,
        "findings"@,
    ) == s.fast_findings + found_fixes(s)
}

proof fn lemma_with_fixes(fast: JsonView, followup: Option<FollowupView>)
    ensures
        list_or_empty(
            match followup {
                Some(followup) => with_fixes(fast, followup.master_fixes),
                None => fast,
            },
            "findings"@,
        ) == list_or_empty(fast, "findings"@) + match followup {
            Some(followup) => fix_findings(followup.master_fixes),
            None => Seq::empty(),
        },
{
    let before = list_or_empty(fast, "findings"@);
    assert(before + Seq::empty() =~= before);
    if let Some(followup) = followup {
        if followup.master_fixes.len() == 0 {
            assert(fix_findings(followup.master_fixes) =~= Seq::empty());
        }
    }
}

proof fn lemma_next_stage_is_first(options: ReviewOptions, from: int)
    requires
        3 <= from,
    ensures
        match next_stage(options, from) {
            Some(stage) => {
                &&& from <= stage <= 8
                &&& stage_runs(options, stage as int)
                &&& forall|k: int| from <= k < stage ==> !#[trigger] stage_runs(options, k)
            },
            None => forall|k: int| from <= k ==> !#[trigger] stage_runs(options, k),
        },
    decreases 9 - from,
{
    if from <= 8 && !stage_runs(options, from) {
        lemma_next_stage_is_first(options, from + 1);
    }
}

proof fn lemma_holds_next(s: ReviewView, event: ReviewEvent)
    requires
        review_holds(s),
    ensures
        review_holds(review_next(s, event)),
{
    lemma_next_stage_is_first(s.options, 3);
    if let ReviewStep::Specialist(stage) = s.step {
        lemma_next_stage_is_first(s.options, stage + 1);
    }
    lemma_with_fixes(no_findings(), s.followup);
    assert(list_or_empty(no_findings(), "findings"@) =~= Seq::empty());
    if let ReviewEvent::Reply { reply, .. } = event {
        if let Some(parsed) = reply.parsed {
            lemma_with_fixes(parsed@, s.followup);
        }
    }
}

/// At any time of any review: without tools nothing is held against the findings of the fast pass;
/// these stand in front in the baseline of a review by stages, and the fixes that upstream has
/// behind them; as long as there are no concerns, no findings are made from them; and a review in
/// one pass has no concerns and ends with what the model wrote, which no other review does.
pub proof fn lemma_review_holds(options: ReviewOptions, events: Seq<ReviewEvent>)
    ensures
        review_holds(review_after(options, events)),
    decreases events.len(),
{
    if events.len() > 0 {
        lemma_review_holds(options, events.drop_last());
        lemma_holds_next(review_after(options, events.drop_last()), events.last());
    } else {
        assert(list_or_empty(no_findings(), "findings"@) =~= Seq::empty());
    }
}

/// Once the fast pass is over, its findings and the whole baseline stay as they are: nothing that
/// the later stages reply replaces them.
pub proof fn lemma_baseline_is_protected(s: ReviewView, event: ReviewEvent)
    requires
        !before_broad(s.step),
    ensures
        review_next(s, event).baseline == s.baseline,
        review_next(s, event).fast_findings == s.fast_findings,
        review_next(s, event).followup == s.followup,
        review_next(s, event).guides == s.guides,
        review_next(s, event).prefetch == s.prefetch,
{
}

/// What the stages have used is recorded for good, and an event records at most one stage.
pub proof fn lemma_usage_only_grows(s: ReviewView, event: ReviewEvent)
    ensures
        s.usage.len() <= review_next(s, event).usage.len() <= s.usage.len() + 1,
        review_next(s, event).usage.take(s.usage.len() as int) == s.usage,
{
    assert(s.usage.take(s.usage.len() as int) =~= s.usage);
    assert(forall|x| #[trigger] s.usage.push(x).take(s.usage.len() as int) =~= s.usage);
}

/// Once the concerns of the broad pass are known, concerns and challenges are only added to.
pub proof fn lemma_concerns_only_grow(s: ReviewView, event: ReviewEvent)
    requires
        !before_concerns(s.step),
    ensures
        s.concerns.len() <= review_next(s, event).concerns.len(),
        review_next(s, event).concerns.take(s.concerns.len() as int) == s.concerns,
        s.challenges.len() <= review_next(s, event).challenges.len(),
        review_next(s, event).challenges.take(s.challenges.len() as int) == s.challenges,
{
    assert(s.concerns.take(s.concerns.len() as int) =~= s.concerns);
    assert(s.challenges.take(s.challenges.len() as int) =~= s.challenges);
    assert(forall|x: Seq<JsonView>|
        #[trigger] (s.concerns + x).take(s.concerns.len() as int) =~= s.concerns);
    assert(forall|x: Seq<JsonView>|
        #[trigger] (s.challenges + x).take(s.challenges.len() as int) =~= s.challenges);
}

/// Whether an event is what a step waits for.
pub open spec fn awaited(step: ReviewStep, event: ReviewEvent) -> bool {
    match step {
        ReviewStep::Subsystem => event is NoSubsystemIndex || event is Guides
            || event is GuidesFailed,
        ReviewStep::Followup => event matches ReviewEvent::Followup(f) && f@ is Done,
        ReviewStep::Context => event is Context,
        ReviewStep::SinglePass => event is SinglePass,
        ReviewStep::Fast
        | ReviewStep::Broad
        | ReviewStep::Specialist(_)
        | ReviewStep::Consolidate => event is Reply,
        ReviewStep::Repair => event is Repaired,
        ReviewStep::Fallback => event is Fallback,
        ReviewStep::Done => false,
    }
}

/// How many steps can still follow.
pub open spec fn steps_left(step: ReviewStep) -> int {
    match step {
        ReviewStep::Subsystem => 14,
        ReviewStep::Followup => 13,
        ReviewStep::Context => 12,
        ReviewStep::SinglePass => 11,
        ReviewStep::Fast => 11,
        ReviewStep::Broad => 10,
        ReviewStep::Repair => 9,
        ReviewStep::Specialist(stage) => 11 - stage,
        ReviewStep::Consolidate => 2,
        ReviewStep::Fallback => 1,
        ReviewStep::Done => 0,
    }
}

/// A review comes to its end: what it waits for brings it closer, be it a failure or not, and
/// nothing else changes it.
pub proof fn lemma_review_ends(s: ReviewView, event: ReviewEvent)
    requires
        review_holds(s),
    ensures
        steps_left(s.step) >= 0,
        steps_left(s.step) == 0 <==> s.step is Done,
        awaited(s.step, event) ==> steps_left(review_next(s, event).step) < steps_left(s.step),
        !awaited(s.step, event) ==> review_next(s, event) == s,
{
    lemma_next_stage_is_first(s.options, 3);
    if let ReviewStep::Specialist(stage) = s.step {
        lemma_next_stage_is_first(s.options, stage + 1);
    }
}

/// The specialists are asked in their order, each once: after one, the next that has something to
/// do, and consolidation only if none is left.
pub proof fn lemma_specialists_in_order(s: ReviewView, event: ReviewEvent, stage: u8)
    requires
        review_holds(s),
        s.step == ReviewStep::Specialist(stage),
        event is Reply,
    ensures
        match review_next(s, event).step {
            ReviewStep::Specialist(next) => {
                &&& stage < next
                &&& stage_runs(s.options, next as int)
                &&& forall|k: int| stage < k < next ==> !#[trigger] stage_runs(s.options, k)
            },
            step => {
                &&& step is Consolidate || step is Done
                &&& forall|k: int| stage < k ==> !#[trigger] stage_runs(s.options, k)
            },
        },
{
    lemma_next_stage_is_first(s.options, stage + 1);
}

/// The concerns of a review are never lost: a review that ends with concerns ends with the
/// findings that the consolidation made of them, or, where its reply was unusable, with the
/// concerns as findings.
pub proof fn lemma_concerns_are_consolidated(s: ReviewView, event: ReviewEvent)
    requires
        review_holds(s),
        !(s.step is Done),
        review_next(s, event).step is Done,
        review_next(s, event).concerns.len() > 0,
    ensures
        s.step is Consolidate || s.step is Fallback,
        s.step is Consolidate ==> (event matches ReviewEvent::Reply { reply, .. }
            && reply.parsed matches Some(parsed) && review_next(s, event).additional == parsed@),
        s.step is Fallback ==> (event matches ReviewEvent::Fallback(findings) && review_next(
            s,
            event,
        ).additional == findings@),
{
    lemma_next_stage_is_first(s.options, 3);
}

/// Every reply that the review waits for is counted and recorded with what it used, usable or not;
/// what is not a reply of the model counts for nothing.
pub proof fn lemma_replies_are_counted(s: ReviewView, event: ReviewEvent)
    requires
        awaited(s.step, event),
    ensures
        event matches ReviewEvent::Reply { reply, .. } ==> {
            let after = review_next(s, event);
            &&& after.totals == plus(s.totals, call_counts(reply.usage))
            &&& after.usage.len() == s.usage.len() + 1
            &&& after.usage.last().usage == reply.usage
            &&& after.usage.last().wall_ms == reply.wall_ms
            &&& after.usage.last().error == opt_text(reply.error)
        },
        event is NoSubsystemIndex || event is GuidesFailed || event is Context || event is Repaired
            || event is Fallback ==> review_next(s, event).totals == s.totals,
{
}

/// The progress display counts up to its last number and never beyond.
pub proof fn lemma_display_is_within_total(s: ReviewView)
    requires
        review_holds(s),
    ensures
        display_of(s) matches Some((step, last)) ==> step <= last,
{
}

/// Without tools no step may use the repository, and with them every reply that can challenge a
/// finding of the fast pass must show that it was checked there.
pub proof fn lemma_tools(s: ReviewView)
    requires
        review_holds(s),
    ensures
        !s.options.tools ==> tools_for(s) == StepTools::Off,
        s.step is Consolidate ==> tools_for(s) == StepTools::Off,
        s.options.tools && s.step is Specialist && s.fast_findings.len() > 0 ==> (tools_for(s)
            == StepTools::Requiring(ToolVerification::BaselineFalsePositiveProof) || tools_for(s)
            == StepTools::Requiring(
            ToolVerification::Stage7LinkageAndBaselineFalsePositiveProof,
        )),
{
}

// ---------------------------------------------------------------------------------------------
// What each event brings
// ---------------------------------------------------------------------------------------------

/// After a usable reply of a specialist the concerns are those from before and then all the items
/// of the reply's list, in order. The same holds of the challenges if there are tools; without
/// tools, and after an unusable reply, nothing is added.
pub proof fn lemma_specialist_items(
    s: ReviewView,
    stage: u8,
    step: String,
    reply: Reply,
    concerns: Seq<JsonView>,
    challenges: Seq<JsonView>,
)
    requires
        s.step == ReviewStep::Specialist(stage),
        reply.parsed matches Some(parsed) ==> {
            &&& is_list_of(parsed@, "concerns"@, concerns)
            &&& is_list_of(parsed@, "baseline_false_positives"@, challenges)
        },
    ensures
        ({
            let after = review_next(s, ReviewEvent::Reply { step, reply });
            &&& after.options == s.options
            &&& after.guides == s.guides
            &&& after.followup == s.followup
            &&& after.prefetch == s.prefetch
            &&& after.baseline == s.baseline
            &&& after.fast_findings == s.fast_findings
            &&& after.broad == s.broad
            &&& after.additional == s.additional
            &&& after.single_review == s.single_review
            &&& reply.parsed is None ==> after.concerns == s.concerns && after.challenges
                == s.challenges
            &&& reply.parsed is Some ==> {
                &&& after.concerns.len() == s.concerns.len() + concerns.len()
                &&& forall|i: int|
                    0 <= i < s.concerns.len() ==> #[trigger] after.concerns[i] == s.concerns[i]
                &&& forall|i: int|
                    0 <= i < concerns.len() ==> after.concerns[s.concerns.len() + i]
                        == #[trigger] concerns[i]
            }
            &&& reply.parsed is Some && s.options.tools ==> {
                &&& after.challenges.len() == s.challenges.len() + challenges.len()
                &&& forall|i: int|
                    0 <= i < s.challenges.len() ==> #[trigger] after.challenges[i]
                        == s.challenges[i]
                &&& forall|i: int|
                    0 <= i < challenges.len() ==> after.challenges[s.challenges.len() + i]
                        == #[trigger] challenges[i]
            }
            &&& !s.options.tools ==> after.challenges == s.challenges
        }),
{
    if concerns.len() == 0 {
        assert(concerns =~= Seq::empty());
    }
    if challenges.len() == 0 {
        assert(challenges =~= Seq::empty());
    }
}

/// Whether the items are those of a member that is a list; without such a list there are none.
pub open spec fn is_list_of(v: JsonView, name: Seq<char>, items: Seq<JsonView>) -> bool {
    match field(v, name) {
        Some(JsonView::List(l)) => items == l,
        _ => items.len() == 0,
    }
}

/// A review begins with nothing known, counted or found.
pub proof fn lemma_review_begins(options: ReviewOptions)
    ensures
        ({
            let s = review_start(options);
            &&& s.options == options
            &&& s.step is Subsystem
            &&& s.totals.api_calls == 0 && s.totals.prompt == 0 && s.totals.completion == 0
            &&& s.totals.cache_creation == 0 && s.totals.cache_read == 0
            &&& s.usage.len() == 0
            &&& s.guides is None && s.followup is None && s.single_review is None
            &&& s.prefetch.len() == 0
            &&& s.fast_findings.len() == 0 && s.concerns.len() == 0 && s.challenges.len() == 0
            &&& field(s.baseline, "findings"@) == Some(JsonView::List(Seq::empty()))
            &&& field(s.additional, "findings"@) == Some(JsonView::List(Seq::empty()))
            &&& s.broad == JsonView::List(Seq::empty())
        }),
{
}

/// Whether two reviews have found the same.
pub open spec fn same_findings(a: ReviewView, b: ReviewView) -> bool {
    &&& a.options == b.options
    &&& a.baseline == b.baseline
    &&& a.fast_findings == b.fast_findings
    &&& a.broad == b.broad
    &&& a.concerns == b.concerns
    &&& a.challenges == b.challenges
    &&& a.additional == b.additional
    &&& a.single_review == b.single_review
}

/// Whether a review goes on from its guides: to the follow-up stage, if there is a branch or a list
/// to look at, and to the context otherwise.
pub open spec fn goes_on_from_guides(s: ReviewView, after: ReviewView) -> bool {
    &&& s.options.has_branch || s.options.lore_active ==> after.step is Followup
    &&& !s.options.has_branch && !s.options.lore_active ==> after.step is Context
    &&& same_findings(after, s)
    &&& after.followup == s.followup
    &&& after.prefetch == s.prefetch
}

/// The guides are taken if there are any, and the call for them is counted; it is recorded if it
/// gave some or failed. The review goes on in any case.
pub proof fn lemma_guides_event(
    s: ReviewView,
    guides: Vec<String>,
    usage: TokenUsage,
    wall_ms: u64,
    reason: String,
)
    requires
        s.step is Subsystem,
    ensures
        ({
            let after = review_next(s, ReviewEvent::NoSubsystemIndex);
            &&& goes_on_from_guides(s, after)
            &&& after.guides == s.guides && after.totals == s.totals && after.usage == s.usage
        }),
        ({
            let after = review_next(
                s,
                ReviewEvent::Guides { guides: Some(guides), usage, wall_ms },
            );
            &&& goes_on_from_guides(s, after)
            &&& after.guides == Some(texts(guides@))
            &&& after.totals == plus(s.totals, call_counts(usage))
            &&& after.usage == s.usage.push(
                StageView { step: "subsystem"@, usage, wall_ms, error: None },
            )
        }),
        ({
            let after = review_next(s, ReviewEvent::Guides { guides: None, usage, wall_ms });
            &&& goes_on_from_guides(s, after)
            &&& after.guides == s.guides
            &&& after.totals == plus(s.totals, call_counts(usage))
            &&& after.usage == s.usage
        }),
        ({
            let after = review_next(s, ReviewEvent::GuidesFailed { reason });
            &&& goes_on_from_guides(s, after)
            &&& after.guides == s.guides
            &&& after.totals == s.totals
            &&& after.usage.len() == s.usage.len() + 1
            &&& after.usage.drop_last() == s.usage
            &&& after.usage.last().step == "subsystem"@
            &&& after.usage.last().error == Some(reason@)
            &&& after.usage.last().wall_ms == 0
            &&& call_counts(after.usage.last().usage).prompt == 0
        }),
{
    assert(forall|x: StageView| #[trigger] s.usage.push(x).drop_last() =~= s.usage);
}

/// What the follow-up stage found is kept; its call is counted if there was one, and it is recorded
/// if it ran. The context comes next.
pub proof fn lemma_followup_event(
    s: ReviewView,
    followup: Followup,
    result: Option<FollowupView>,
    stage: StageView,
    called_model: bool,
)
    requires
        s.step is Followup,
    ensures
        followup@ == (FollowupStage::Done { result, stage: Some(stage), called_model }) ==> {
            let after = review_next(s, ReviewEvent::Followup(followup));
            &&& after.step is Context
            &&& after.followup == result
            &&& after.usage == s.usage.push(stage)
            &&& called_model ==> after.totals == plus(s.totals, call_counts(stage.usage))
            &&& !called_model ==> after.totals == s.totals
            &&& same_findings(after, s)
            &&& after.guides == s.guides
            &&& after.prefetch == s.prefetch
        },
        followup@ == (FollowupStage::Done { result, stage: None, called_model }) ==> {
            let after = review_next(s, ReviewEvent::Followup(followup));
            &&& after.step is Context
            &&& after.followup == result
            &&& after.usage == s.usage
            &&& after.totals == s.totals
            &&& same_findings(after, s)
            &&& after.guides == s.guides
            &&& after.prefetch == s.prefetch
        },
        !(followup@ is Done) ==> review_next(s, ReviewEvent::Followup(followup)) == s,
{
}

/// The context is kept, and the pass that the options ask for comes next; without a fast pass the
/// baseline has the fixes of upstream alone.
pub proof fn lemma_context_event(s: ReviewView, text: String)
    requires
        s.step is Context,
    ensures
        review_next(s, ReviewEvent::Context { prefetch: Some(text) }).prefetch == text@,
        review_next(s, ReviewEvent::Context { prefetch: None }).prefetch.len() == 0,
        forall|prefetch: Option<String>|
            {
                let after = #[trigger] review_next(s, ReviewEvent::Context { prefetch });
                &&& s.options.single_pass ==> after.step is SinglePass && same_findings(after, s)
                &&& !s.options.single_pass && s.options.fast ==> after.step is Fast
                    && same_findings(after, s)
                &&& !s.options.single_pass && !s.options.fast ==> {
                    &&& after.step is Broad
                    &&& after.fast_findings.len() == 0
                    &&& is_list_of(after.baseline, "findings"@, found_fixes(s))
                }
                &&& after.totals == s.totals
                &&& after.usage == s.usage
                &&& after.guides == s.guides
                &&& after.followup == s.followup
                &&& after.concerns == s.concerns
                &&& after.challenges == s.challenges
            },
{
    lemma_with_fixes(no_findings(), s.followup);
    assert(Seq::<JsonView>::empty() + found_fixes(s) =~= found_fixes(s));
    if let Some(followup) = s.followup {
        if followup.master_fixes.len() == 0 {
            assert(found_fixes(s) =~= Seq::empty());
        }
    }
}

/// A review in one pass ends with what the model wrote.
pub proof fn lemma_single_pass_event(
    s: ReviewView,
    review: String,
    usage: TokenUsage,
    wall_ms: u64,
)
    requires
        s.step is SinglePass,
    ensures
        ({
            let after = review_next(s, ReviewEvent::SinglePass { review, usage, wall_ms });
            &&& after.step is Done
            &&& after.single_review == Some(review@)
            &&& after.totals == plus(s.totals, call_counts(usage))
            &&& after.usage == s.usage.push(
                StageView { step: "fast-review"@, usage, wall_ms, error: None },
            )
            &&& after.baseline == s.baseline && after.concerns == s.concerns
            &&& after.challenges == s.challenges && after.additional == s.additional
        }),
{
}

/// The findings of the fast pass are all those of its reply, in order, and the baseline has them
/// and behind them the fixes of upstream; an unusable reply has none. The broad pass comes next.
pub proof fn lemma_fast_reply(
    s: ReviewView,
    step: String,
    reply: Reply,
    findings: Seq<JsonView>,
    name: Seq<char>,
)
    requires
        s.step is Fast,
        reply.parsed matches Some(parsed) ==> is_list_of(parsed@, "findings"@, findings),
        reply.parsed is None ==> findings.len() == 0,
    ensures
        ({
            let after = review_next(s, ReviewEvent::Reply { step, reply });
            &&& after.step is Broad
            &&& after.fast_findings == findings
            &&& is_list_of(after.baseline, "findings"@, findings + found_fixes(s))
            &&& reply.parsed matches Some(parsed) ==> (name != "findings"@ ==> field(
                after.baseline,
                name,
            ) == field(parsed@, name))
            &&& after.usage == s.usage.push(
                StageView {
                    step: "fast-review"@,
                    usage: reply.usage,
                    wall_ms: reply.wall_ms,
                    error: opt_text(reply.error),
                },
            )
            &&& after.concerns == s.concerns
            &&& after.challenges == s.challenges
            &&& after.additional == s.additional
        }),
{
    if findings.len() == 0 {
        assert(findings =~= Seq::empty());
    }
    let fast = match reply.parsed {
        Some(parsed) => parsed@,
        None => no_findings(),
    };
    lemma_with_fixes(fast, s.followup);
    if let Some(followup) = s.followup {
        if followup.master_fixes.len() == 0 {
            assert(found_fixes(s) =~= Seq::empty());
        }
    }
    assert(findings + Seq::<JsonView>::empty() =~= findings);
}

/// The concerns of the broad pass wait for their repair as they were replied; an unusable reply, or
/// one without them, has none.
pub proof fn lemma_broad_reply(s: ReviewView, step: String, reply: Reply, concerns: JsonView)
    requires
        s.step is Broad,
    ensures
        ({
            let after = review_next(s, ReviewEvent::Reply { step, reply });
            &&& after.step is Repair
            &&& (reply.parsed matches Some(parsed) && field(parsed@, "concerns"@) == Some(concerns))
                ==> after.broad == concerns
            &&& (reply.parsed matches Some(parsed) ==> field(parsed@, "concerns"@) is None)
                ==> after.broad == JsonView::List(Seq::empty())
            &&& after.usage == s.usage.push(
                StageView {
                    step: "concerns"@,
                    usage: reply.usage,
                    wall_ms: reply.wall_ms,
                    error: opt_text(reply.error),
                },
            )
            &&& after.concerns == s.concerns
            &&& after.challenges == s.challenges
            &&& after.additional == s.additional
        }),
{
}

/// The repaired concerns are those of the review, all of them in their order, if they are a list.
/// The first specialist that has something to do comes next.
pub proof fn lemma_repaired_event(s: ReviewView, concerns: Json, items: Seq<JsonView>)
    requires
        s.step is Repair,
        concerns@ == JsonView::List(items) || (items.len() == 0 && !(concerns@ is List)),
    ensures
        ({
            let after = review_next(s, ReviewEvent::Repaired(concerns));
            &&& after.broad == concerns@
            &&& after.concerns == items
            &&& after.challenges == s.challenges
            &&& after.additional == s.additional
            &&& after.totals == s.totals
            &&& after.usage == s.usage
            &&& match after.step {
                ReviewStep::Specialist(stage) => {
                    &&& stage_runs(s.options, stage as int)
                    &&& forall|k: int| 3 <= k < stage ==> !#[trigger] stage_runs(s.options, k)
                },
                ReviewStep::Consolidate => {
                    &&& items.len() > 0
                    &&& forall|k: int| 3 <= k ==> !#[trigger] stage_runs(s.options, k)
                },
                ReviewStep::Done => {
                    &&& items.len() == 0
                    &&& forall|k: int| 3 <= k ==> !#[trigger] stage_runs(s.options, k)
                },
                _ => false,
            }
        }),
{
    if items.len() == 0 {
        assert(items =~= Seq::empty());
    }
    lemma_next_stage_is_first(s.options, 3);
}

/// After the last specialist the concerns are consolidated, if there are any by then.
pub proof fn lemma_after_specialists(s: ReviewView, stage: u8, step: String, reply: Reply)
    requires
        s.step == ReviewStep::Specialist(stage),
        3 <= stage <= 8,
    ensures
        ({
            let after = review_next(s, ReviewEvent::Reply { step, reply });
            &&& after.step is Consolidate ==> after.concerns.len() > 0
            &&& after.step is Done ==> after.concerns.len() == 0
            &&& after.step is Specialist || after.step is Consolidate || after.step is Done
            &&& after.step is Specialist <==> exists|k: int|
                stage < k && #[trigger] stage_runs(s.options, k)
            &&& after.usage.last().step == step@
        }),
{
    lemma_next_stage_is_first(s.options, stage + 1);
    if let Some(next) = next_stage(s.options, stage + 1) {
        assert(stage_runs(s.options, next as int));
    }
}

/// The findings that the consolidation replied are kept; after an unusable reply those come that
/// are made of the concerns.
pub proof fn lemma_consolidation(s: ReviewView, step: String, reply: Reply, findings: Json)
    ensures
        s.step is Consolidate ==> {
            let after = review_next(s, ReviewEvent::Reply { step, reply });
            &&& reply.parsed matches Some(parsed) ==> after.step is Done && after.additional
                == parsed@
            &&& reply.parsed is None ==> after.step is Fallback && after.additional == s.additional
            &&& after.usage == s.usage.push(
                StageView {
                    step: "consolidation"@,
                    usage: reply.usage,
                    wall_ms: reply.wall_ms,
                    error: opt_text(reply.error),
                },
            )
            &&& after.baseline == s.baseline && after.concerns == s.concerns
            &&& after.challenges == s.challenges
        },
        s.step is Fallback ==> {
            let after = review_next(s, ReviewEvent::Fallback(findings));
            &&& after.step is Done
            &&& after.additional == findings@
            &&& after.baseline == s.baseline && after.concerns == s.concerns
            &&& after.challenges == s.challenges
            &&& after.totals == s.totals && after.usage == s.usage
        },
{
}

/// A specialist stage runs if there are instructions for it, and the last one only if the patch
/// touches comments.
pub proof fn lemma_stage_runs(options: ReviewOptions, stage: int)
    ensures
        3 <= stage <= 7 ==> (stage_runs(options, stage) <==> exists|i: int|
            0 <= i < options.instructed@.len() && #[trigger] options.instructed@[i] == stage),
        stage == 8 ==> (stage_runs(options, stage) <==> options.touches_comments && exists|i: int|
            0 <= i < options.instructed@.len() && #[trigger] options.instructed@[i] == stage),
        stage < 3 || stage > 8 ==> !stage_runs(options, stage),
{
    if 3 <= stage <= 8 {
        if options.instructed@.contains(stage as u8) {
            let i = choose|i: int|
                0 <= i < options.instructed@.len() && options.instructed@[i] == stage as u8;
            assert(options.instructed@[i] == stage);
        }
        if exists|i: int| 0 <= i < options.instructed@.len() && #[trigger] options.instructed@[i]
            == stage {
            let i = choose|i: int|
                0 <= i < options.instructed@.len() && #[trigger] options.instructed@[i] == stage;
            assert(options.instructed@[i] == stage as u8);
        }
    }
}

/// What is asked of a specialist: the stage about linkage gets the context and its own form, the
/// last one no concerns, and with tools a reply must show what it checked: linkage where it is
/// about that, and proof where there are findings of the fast pass to challenge.
pub proof fn lemma_specialist_request(stage: u8, tools: bool, n: nat)
    requires
        3 <= stage <= 8,
    ensures
        ({
            let r = request_for(stage, tools, n);
            &&& r.with_prefetch <==> stage == 7
            &&& r.linkage_form <==> stage == 7
            &&& r.with_concerns <==> stage != 8
            &&& r.display_step == stage + 1
            &&& r.verification is None <==> !tools
            &&& tools && stage == 7 && n > 0 ==> r.verification == Some(
                ToolVerification::Stage7LinkageAndBaselineFalsePositiveProof,
            )
            &&& tools && stage == 7 && n == 0 ==> r.verification == Some(
                ToolVerification::Stage7Linkage,
            )
            &&& tools && stage != 7 && n > 0 ==> r.verification == Some(
                ToolVerification::BaselineFalsePositiveProof,
            )
            &&& tools && stage != 7 && n == 0 ==> r.verification == Some(ToolVerification::Optional)
        }),
{
}

/// Which tools a step has, if there are any.
pub proof fn lemma_step_tools(s: ReviewView)
    requires
        s.options.tools,
    ensures
        s.step is SinglePass || s.step is Fast ==> tools_for(s) == StepTools::Requiring(
            ToolVerification::SensitiveFindings,
        ),
        s.step is Broad ==> tools_for(s) == StepTools::On,
        s.step matches ReviewStep::Specialist(stage) ==> (request_for(
            stage,
            true,
            s.fast_findings.len(),
        ).verification matches Some(v) && tools_for(s) == StepTools::Requiring(v)),
        s.step is Subsystem || s.step is Followup || s.step is Context || s.step is Repair || s.step
            is Consolidate || s.step is Fallback || s.step is Done ==> tools_for(s)
            == StepTools::Off,
{
}

/// How a step is numbered for display.
pub proof fn lemma_display_numbers(s: ReviewView)
    ensures
        display_of(s) matches Some((_, last)) ==> last == if s.options.single_pass {
            2u32
        } else {
            10u32
        },
        display_of(s) is None <==> s.step is Context || s.step is Repair || s.step is Fallback
            || s.step is Done,
        s.step is Subsystem ==> (display_of(s) matches Some((n, _)) && n == 0),
        s.step is Followup ==> (display_of(s) matches Some((n, _)) && n == 1),
        s.step is SinglePass || s.step is Fast ==> (display_of(s) matches Some((n, _)) && n == 2),
        s.step is Broad ==> (display_of(s) matches Some((n, _)) && n == 3),
        s.step matches ReviewStep::Specialist(stage) ==> (display_of(s) matches Some((n, _)) && n
            == stage + 1),
        s.step is Consolidate ==> (display_of(s) matches Some((n, _)) && n == 10),
{
}

/// What is shown of a review: nothing before the fast pass is over; then the baseline, as long as
/// there are no concerns; and with concerns the baseline merged with the findings that are made of
/// them, which are the final ones once the review is over.
pub proof fn lemma_published(s: ReviewView, from_concerns: JsonView)
    ensures
        before_broad(s.step) ==> published_report(s, from_concerns) is None,
        !before_broad(s.step) && s.concerns.len() == 0 ==> published_report(s, from_concerns)
            == Some(s.baseline),
        s.concerns.len() > 0 && (s.step is Done || s.step is Fallback) ==> published_report(
            s,
            from_concerns,
        ) == Some(combined_report(s.baseline, s.additional)),
        s.concerns.len() > 0 && (s.step is Broad || s.step is Repair || s.step is Specialist
            || s.step is Consolidate) ==> published_report(s, from_concerns) == Some(
            combined_report(s.baseline, from_concerns),
        ),
{
}

/// The consolidation gets the context if any concern calls for it, and none otherwise.
pub proof fn lemma_consolidation_context(s: ReviewView)
    ensures
        forall|k: int|
            0 <= k < s.concerns.len() && wants_linkage_context(#[trigger] s.concerns[k])
                ==> consolidation_prefetch(s) == s.prefetch,
        (forall|k: int|
            0 <= k < s.concerns.len() ==> !wants_linkage_context(#[trigger] s.concerns[k]))
            ==> consolidation_prefetch(s).len() == 0,
{
}

// ---------------------------------------------------------------------------------------------
// The follow-up stage
// ---------------------------------------------------------------------------------------------

/// Whether the follow-up stage is over, with the given result and record.
pub open spec fn is_over(
    after: FollowupStage,
    result: Option<FollowupView>,
    usage: TokenUsage,
    wall_ms: u64,
    error: Option<Seq<char>>,
    called: bool,
) -> bool {
    after matches FollowupStage::Done { result: r, stage: Some(stage), called_model } && {
        &&& r == result
        &&& stage.step == "followup"@
        &&& stage.usage == usage
        &&& stage.wall_ms == wall_ms
        &&& stage.error == error
        &&& called_model == called
    }
}

/// What is told of the fixes of the branch alone: nothing, if they make no text.
pub open spec fn from_branch(found: BranchView, result: Option<FollowupView>) -> bool {
    &&& found.summary.len() == 0 ==> result is None
    &&& found.summary.len() > 0 ==> (result matches Some(r) && r.summary.len() == 0
        && r.master_summary == found.summary && r.master_fixes == found.fixes)
}

/// A commit whose subject cannot be read, or is blank, is skipped. Otherwise the branch is asked,
/// if there is one, or else the list, if that is to be asked.
pub proof fn lemma_followup_subject(
    has_branch: bool,
    lore_active: bool,
    subject: String,
    wall_ms: u64,
)
    ensures
        ({
            let s = FollowupStage::Subject { has_branch, lore_active };
            let known = followup_next(
                s,
                FollowupEvent::Subject { subject: Some(subject), wall_ms },
            );
            let unknown = followup_next(s, FollowupEvent::Subject { subject: None, wall_ms });
            let skipped = FollowupStage::Done { result: None, stage: None, called_model: false };
            &&& unknown == skipped
            &&& trim(subject@).len() == 0 ==> known == skipped
            &&& trim(subject@).len() > 0 && has_branch ==> known == FollowupStage::Branch {
                lore_active,
            }
            &&& trim(subject@).len() > 0 && !has_branch && lore_active ==> (
            known matches FollowupStage::Lore { found } && found.fixes.len() == 0
                && found.summary.len() == 0)
            &&& trim(subject@).len() > 0 && !has_branch && !lore_active ==> is_over(
                known,
                None,
                no_usage(),
                wall_ms,
                None,
                false,
            )
        }),
{
}

/// The fixes of the branch are kept for the list, if that is to be asked, and are the result
/// otherwise; a branch that cannot be asked has none.
pub proof fn lemma_followup_branch(lore_active: bool, found: BranchFixes, wall_ms: u64)
    ensures
        ({
            let s = FollowupStage::Branch { lore_active };
            let some = followup_next(s, FollowupEvent::Branch { found: Some(found), wall_ms });
            let none = followup_next(s, FollowupEvent::Branch { found: None, wall_ms });
            &&& lore_active ==> some == FollowupStage::Lore { found: found@ }
            &&& lore_active ==> (none matches FollowupStage::Lore { found: f } && f.fixes.len() == 0
                && f.summary.len() == 0)
            &&& !lore_active ==> exists|r: Option<FollowupView>|
                from_branch(found@, r) && #[trigger] is_over(
                    some,
                    r,
                    no_usage(),
                    wall_ms,
                    None,
                    false,
                )
            &&& !lore_active ==> is_over(none, None, no_usage(), wall_ms, None, false)
        }),
{
    let s = FollowupStage::Branch { lore_active };
    let some = followup_next(s, FollowupEvent::Branch { found: Some(found), wall_ms });
    if let FollowupStage::Done { result, .. } = some {
        assert(is_over(some, result, no_usage(), wall_ms, None, false));
    }
}

/// A discussion without messages is told as such without asking the model; one with messages goes
/// to the model, whose summary stands with the fixes of the branch. Where the list or the model
/// fails, these alone are told, with the error.
pub proof fn lemma_followup_discussion(
    found: BranchView,
    messages: usize,
    text: String,
    reason: String,
    usage: TokenUsage,
    wall_ms: u64,
    error: Option<String>,
)
    ensures
        ({
            let s = FollowupStage::Lore { found };
            let answered = followup_next(
                s,
                FollowupEvent::LoreAnswered { messages, no_activity: text, wall_ms },
            );
            let failed = followup_next(s, FollowupEvent::LoreFailed { reason, wall_ms });
            let told = FollowupView {
                summary: text@,
                master_summary: found.summary,
                master_fixes: found.fixes,
            };
            &&& messages > 0 ==> answered == FollowupStage::Model { found }
            &&& messages == 0 ==> is_over(answered, Some(told), no_usage(), wall_ms, None, false)
            &&& exists|r: Option<FollowupView>|
                from_branch(found, r) && #[trigger] is_over(
                    failed,
                    r,
                    no_usage(),
                    wall_ms,
                    Some(reason@),
                    false,
                )
        }),
        ({
            let s = FollowupStage::Model { found };
            let replied = followup_next(
                s,
                FollowupEvent::Model { summary: Some(text), usage, wall_ms, error },
            );
            let failed = followup_next(
                s,
                FollowupEvent::Model { summary: None, usage, wall_ms, error },
            );
            let told = FollowupView {
                summary: text@,
                master_summary: found.summary,
                master_fixes: found.fixes,
            };
            &&& is_over(replied, Some(told), usage, wall_ms, opt_text(error), true)
            &&& exists|r: Option<FollowupView>|
                from_branch(found, r) && #[trigger] is_over(
                    failed,
                    r,
                    usage,
                    wall_ms,
                    opt_text(error),
                    true,
                )
        }),
{
    let a = followup_next(
        FollowupStage::Lore { found },
        FollowupEvent::LoreFailed { reason, wall_ms },
    );
    if let FollowupStage::Done { result, .. } = a {
        assert(is_over(a, result, no_usage(), wall_ms, Some(reason@), false));
    }
    let b = followup_next(
        FollowupStage::Model { found },
        FollowupEvent::Model { summary: None, usage, wall_ms, error },
    );
    if let FollowupStage::Done { result, .. } = b {
        assert(is_over(b, result, usage, wall_ms, opt_text(error), true));
    }
}

} // verus!
