//! A whole run: what is done with the commits of a range, in which phases, and what is reported.

use vstd::prelude::*;
use crate::findings::{lemma_merge_keeps_base, merge_novel_findings, merged};
use crate::json::{
    Json, JsonView, field, list_or_empty, number, takes_members, views, with_field,
    without_field,
};
use crate::options::{
    Backend, CommitAction, ResolvedModel, ReviewTarget, TargetArg, TestSelection, TestTarget,
    ValidationMode, action_name, goes_without_tools, is_fast_review, mode_name,
};
use crate::text::{copy_text, opt_text, push_text, same_text, texts};
use crate::usage::{Counts, RunTotals, no_counts, plus, tokens_fit, totals_value};
use crate::validation::{set_commits, with_commits};

verus! {

// ---------------------------------------------------------------------------------------------
// From the command to the work
// ---------------------------------------------------------------------------------------------

/// What the user asked for.
#[derive(Debug, Clone)]
pub enum RunCommand {
    Review {
        target: TargetArg,
        fast: bool,
        no_tools: bool,
        max_context_size: usize,
        validation_mode: ValidationMode,
        upstream: String,
        upstream_branch: String,
        range: String,
    },
    TestBuild { range: String },
    /// A test of the commits of a range, or of a configuration option, whose text and target come
    /// together.
    TestBoot {
        timeout_secs: u64,
        plan_only: bool,
        config: Option<(String, TestTarget)>,
        range: Option<String>,
    },
}

/// What is done with each commit, which commits these are, and how many are worked on at a time
/// unless the user says otherwise.
#[derive(Debug, Clone)]
pub struct RunPlan {
    pub action: CommitAction,
    pub selector: String,
    pub default_workers: usize,
    pub validation_mode: ValidationMode,
}

/// How a review is planned.
pub open spec fn plans_review(command: RunCommand, plan: RunPlan) -> bool {
    command matches RunCommand::Review {
        target,
        fast,
        no_tools,
        max_context_size,
        validation_mode,
        upstream,
        upstream_branch,
        range,
    } ==> {
        &&& plan.action == (CommitAction::Review {
            target: match target {
                TargetArg::Kernel => ReviewTarget::Kernel,
                TargetArg::Qemu => ReviewTarget::Qemu,
            },
            fast,
            no_tools,
            max_context_size,
            upstream,
            upstream_branch,
            fast_review_model: None,
        })
        &&& plan.selector == range
        &&& plan.default_workers == 8
        &&& plan.validation_mode == if fast {
            ValidationMode::Off
        } else {
            validation_mode
        }
    }
}

/// How a build is planned.
pub open spec fn plans_build(command: RunCommand, plan: RunPlan) -> bool {
    command matches RunCommand::TestBuild { range } ==> {
        &&& plan.action is TestBuild
        &&& plan.selector == range
        &&& plan.default_workers == 1
        &&& plan.validation_mode is Off
    }
}

/// How a test is planned: a configuration option comes before a range.
pub open spec fn plans_test(command: RunCommand, plan: RunPlan) -> bool {
    command matches RunCommand::TestBoot { timeout_secs, plan_only, config, range } ==> {
        &&& plan.action matches CommitAction::TestBoot {
            timeout_secs: timeout,
            plan_only: only,
            target,
        }
        &&& timeout == timeout_secs
        &&& only == plan_only
        &&& match config {
            Some((text, wanted)) => target == wanted && plan.selector == text,
            None => {
                &&& target.selection is Commit
                &&& target.uses_commit_metadata
                &&& range == Some(plan.selector)
            },
        }
        &&& plan.default_workers == 1
        &&& plan.validation_mode is Off
    }
}

/// Plans a run. A test needs a configuration option or a range.
pub fn plan_run(command: RunCommand) -> (r: RunPlan)
    requires
        command matches RunCommand::TestBoot { config, range, .. } ==> config is Some || range
            is Some,
    ensures
        plans_review(command, r),
        plans_build(command, r),
        plans_test(command, r),
{
    match command {
        RunCommand::Review {
            target,
            fast,
            no_tools,
            max_context_size,
            validation_mode,
            upstream,
            upstream_branch,
            range,
        } => RunPlan {
            action: CommitAction::Review {
                target: target.to_config(),
                fast,
                no_tools,
                max_context_size,
                upstream,
                upstream_branch,
                fast_review_model: None,
            },
            selector: range,
            default_workers: 8,
            validation_mode: if fast {
                ValidationMode::Off
            } else {
                validation_mode
            },
        },
        RunCommand::TestBuild { range } => RunPlan {
            action: CommitAction::TestBuild,
            selector: range,
            default_workers: 1,
            validation_mode: ValidationMode::Off,
        },
        RunCommand::TestBoot { timeout_secs, plan_only, config, range } => {
            let (target, selector): (TestTarget, String) = match config {
                Some((text, target)) => (target, text),
                None => (
                    TestTarget { selection: TestSelection::Commit, uses_commit_metadata: true },
                    match range {
                        Some(range) => range,
                        None => String::new(),
                    },
                ),
            };
            RunPlan {
                action: CommitAction::TestBoot { timeout_secs, plan_only, target },
                selector,
                default_workers: 1,
                validation_mode: ValidationMode::Off,
            }
        },
    }
}

/// The target of an action: that of a review, and the kernel for anything else.
pub open spec fn target_of(action: CommitAction) -> ReviewTarget {
    match action {
        CommitAction::Review { target, .. } => target,
        _ => ReviewTarget::Kernel,
    }
}

pub fn review_target(action: &CommitAction) -> (r: ReviewTarget)
    ensures
        r == target_of(*action),
{
    match action {
        CommitAction::Review { target, .. } => *target,
        _ => ReviewTarget::Kernel,
    }
}

/// Whether an action builds or boots something.
pub open spec fn builds(action: CommitAction) -> bool {
    match action {
        CommitAction::Review { .. } => false,
        CommitAction::TestBuild => true,
        CommitAction::TestBoot { plan_only, .. } => !plan_only,
    }
}

/// Whether the virtual machine's tool must be installed.
pub fn needs_vng(action: &CommitAction) -> (r: bool)
    ensures
        r == builds(*action),
{
    match action {
        CommitAction::Review { .. } => false,
        CommitAction::TestBuild => true,
        CommitAction::TestBoot { plan_only, .. } => !*plan_only,
    }
}

/// Whether each commit is worked on in a working tree of its own.
pub fn use_worktree(action: &CommitAction, dry_run: bool) -> (r: bool)
    ensures
        r == (!dry_run && (action is Review || builds(*action))),
{
    match action {
        CommitAction::Review { .. } => !dry_run,
        CommitAction::TestBuild => !dry_run,
        CommitAction::TestBoot { plan_only, .. } => !dry_run && !*plan_only,
    }
}

/// How the source tree compares with the target of a review.
#[derive(Debug, Clone, Copy, PartialEq, Eq, Structural)]
pub enum TreeCheck {
    /// Nothing is reviewed.
    NotReviewed,
    /// The tree looks like another one, which deserves a warning.
    LooksLike(ReviewTarget),
    Matches,
    /// The tree cannot be told.
    Unknown,
}

pub fn check_tree(action: &CommitAction, detected: Option<ReviewTarget>) -> (r: TreeCheck)
    ensures
        r == if !(action is Review) {
            TreeCheck::NotReviewed
        } else {
            match detected {
                Some(kind) => if kind == target_of(*action) {
                    TreeCheck::Matches
                } else {
                    TreeCheck::LooksLike(kind)
                },
                None => TreeCheck::Unknown,
            }
        },
{
    if !action.is_review() {
        return TreeCheck::NotReviewed;
    }
    match detected {
        Some(kind) => if kind == review_target(action) {
            TreeCheck::Matches
        } else {
            TreeCheck::LooksLike(kind)
        },
        None => TreeCheck::Unknown,
    }
}

/// Whether an action is a review by stages, which uses the strong model.
pub open spec fn is_staged_review(action: CommitAction) -> bool {
    action is Review && !is_fast_review(action)
}

pub fn needs_strong_model(action: &CommitAction) -> (r: bool)
    ensures
        r == is_staged_review(*action),
{
    action.is_review() && !action.review_fast()
}

/// An action with the model of the fast pass set, if it is a review.
pub open spec fn with_fast_model(action: CommitAction, model: Option<ResolvedModel>) -> CommitAction {
    match action {
        CommitAction::Review {
            target,
            fast,
            no_tools,
            max_context_size,
            upstream,
            upstream_branch,
            ..
        } => CommitAction::Review {
            target,
            fast,
            no_tools,
            max_context_size,
            upstream,
            upstream_branch,
            fast_review_model: model,
        },
        other => other,
    }
}

pub fn set_fast_model(action: CommitAction, model: Option<ResolvedModel>) -> (r: CommitAction)
    ensures
        r == with_fast_model(action, model),
{
    match action {
        CommitAction::Review {
            target,
            fast,
            no_tools,
            max_context_size,
            upstream,
            upstream_branch,
            fast_review_model: _,
        } => CommitAction::Review {
            target,
            fast,
            no_tools,
            max_context_size,
            upstream,
            upstream_branch,
            fast_review_model: model,
        },
        other => other,
    }
}

/// The strong model to name in the header: only if it is not the main one.
pub fn header_model(main_id: &str, strong: &Option<ResolvedModel>) -> (r: Option<String>)
    ensures
        opt_text(r) == match strong {
            Some(model) => if model.model_id@ != main_id@ {
                Some(model.model_id@)
            } else {
                None
            },
            None => None,
        },
{
    match strong {
        Some(model) => if same_text(model.model_id.as_str(), main_id) {
            None
        } else {
            Some(copy_text(model.model_id.as_str()))
        },
        None => None,
    }
}

/// The program that a backend leaves its work to; none for the endpoint. That of one backend goes
/// by the name that the caller gives, whatever it is.
pub open spec fn backend_program(backend: Backend, given: Seq<char>) -> Option<Seq<char>> {
    match backend {
        Backend::OpenAi => None,
        Backend::Claude => Some(given),
        Backend::Opencode => Some("opencode"@),
        Backend::Codex => Some("codex"@),
    }
}

/// What the log says on the use of tools. A program looks into the repository itself.
pub open spec fn tools_text(action: CommitAction, backend: Backend, given: Seq<char>) -> Seq<char> {
    if !(action is Review) {
        "n/a (build/test do not call repo tools)"@
    } else {
        match backend_program(backend, given) {
            Some(program) => "delegated to "@ + program + " CLI (boro tool sandbox bypassed)"@,
            None => if goes_without_tools(action) {
                "disabled (--no-tools)"@
            } else {
                "enabled (grep_repo, read_files, read_symbol, git history/diff/show, run_git, rg - review, specialists, validation, LKML; not phase 0 or consolidation)"@
            },
        }
    }
}

/// What the log says on the use of tools. `given` is the name on the command line of the backend
/// whose program has no name here; for every other backend it does not matter.
pub fn repo_tools_text(action: &CommitAction, backend: Backend, given: &str) -> (r: String)
    ensures
        r@ == tools_text(*action, backend, given@),
{
    if !action.is_review() {
        return copy_text("n/a (build/test do not call repo tools)");
    }
    let program = match backend {
        Backend::OpenAi => None,
        Backend::Claude => Some(given),
        Backend::Opencode => Some("opencode"),
        Backend::Codex => Some("codex"),
    };
    match program {
        Some(program) => {
            let mut r = copy_text("delegated to ");
            push_text(&mut r, program);
            push_text(&mut r, " CLI (boro tool sandbox bypassed)");
            r
        },
        None => if action.review_no_tools() {
            copy_text("disabled (--no-tools)")
        } else {
            copy_text(
                "enabled (grep_repo, read_files, read_symbol, git history/diff/show, run_git, rg - review, specialists, validation, LKML; not phase 0 or consolidation)",
            )
        },
    }
}

/// Whether the plan for a test of several commits is made for all of them together.
pub open spec fn collapses(action: CommitAction, commits: nat) -> bool {
    action matches CommitAction::TestBoot { plan_only, target, .. } && plan_only
        && target.selection is Commit && commits > 1
}

/// Makes one plan for all the commits of a range, where only a plan for a test is wanted. The
/// commits are then worked on as one, under the name `range`.
pub fn collapse_plan(
    action: CommitAction,
    shas: Vec<String>,
    range: &str,
    range_uses_metadata: bool,
) -> (r: (CommitAction, Vec<String>))
    ensures
        !collapses(action, shas@.len()) ==> r.0 == action && r.1 == shas,
        collapses(action, shas@.len()) ==> {
            &&& texts(r.1@) == seq!["range"@]
            &&& action matches CommitAction::TestBoot { timeout_secs, .. }
            &&& r.0 matches CommitAction::TestBoot { timeout_secs: timeout, plan_only, target }
            &&& timeout == timeout_secs
            &&& plan_only
            &&& target.uses_commit_metadata == range_uses_metadata
            &&& target.selection matches TestSelection::CommitRange { range: whole, commits }
            &&& whole@ == range@
            &&& commits@ == shas@
        },
{
    let several = shas.len() > 1;
    match action {
        CommitAction::TestBoot { timeout_secs, plan_only, target } => {
            if plan_only && several && matches!(target.selection, TestSelection::Commit) {
                let mut one: Vec<String> = Vec::new();
                one.push(copy_text("range"));
                assert(texts(one@) =~= seq!["range"@]);
                (
                    CommitAction::TestBoot {
                        timeout_secs,
                        plan_only,
                        target: TestTarget {
                            selection: TestSelection::CommitRange {
                                range: copy_text(range),
                                commits: shas,
                            },
                            uses_commit_metadata: range_uses_metadata,
                        },
                    },
                    one,
                )
            } else {
                (CommitAction::TestBoot { timeout_secs, plan_only, target }, shas)
            }
        },
        other => (other, shas),
    }
}

/// Whether the upstream branch is fetched: for reviews of the kernel that are not dry runs.
pub fn fetches_upstream(action: &CommitAction, dry_run: bool) -> (r: bool)
    ensures
        r == (action is Review && target_of(*action) == ReviewTarget::Kernel && !dry_run),
{
    action.is_review() && review_target(action) == ReviewTarget::Kernel && !dry_run
}

/// How many commits are worked on at a time: at least one.
pub fn worker_count(wanted: Option<usize>, default_workers: usize) -> (r: usize)
    ensures
        r == {
            let n = match wanted {
                Some(n) => n,
                None => default_workers,
            };
            if n == 0 {
                1
            } else {
                n
            }
        },
{
    let n = match wanted {
        Some(n) => n,
        None => default_workers,
    };
    if n == 0 {
        1
    } else {
        n
    }
}

/// Whether the progress display has a row for each commit.
pub fn shows_rows(commits: usize, workers: usize) -> (r: bool)
    ensures
        r == (commits > 1 && workers > 1),
{
    commits > 1 && workers > 1
}

// ---------------------------------------------------------------------------------------------
// Phases
// ---------------------------------------------------------------------------------------------

/// What is done once the work on the commits is over.
#[derive(Debug, Clone, Copy, PartialEq, Eq, Structural)]
pub struct Phases {
    /// Validate what the stages added.
    pub validation: bool,
    /// Take what the stages added without a validation.
    pub raw_additions: bool,
    /// Write prose for each commit.
    pub prose: bool,
    /// Summarize the run.
    pub summary: bool,
}

/// The phases of a run.
pub open spec fn phases_of(
    action: CommitAction,
    mode: ValidationMode,
    dry_run: bool,
    cancelled: bool,
) -> Phases {
    let live = !dry_run && !cancelled;
    Phases {
        validation: live && is_staged_review(action) && !(mode is Off),
        raw_additions: action is Review && mode is Off,
        prose: live && action is Review && !(mode is Findings),
        summary: live && is_staged_review(action),
    }
}

pub fn phases(action: &CommitAction, mode: ValidationMode, dry_run: bool, cancelled: bool) -> (r: Phases)
    ensures
        r == phases_of(*action, mode, dry_run, cancelled),
{
    let live = !dry_run && !cancelled;
    let staged = needs_strong_model(action);
    let off = matches!(mode, ValidationMode::Off);
    Phases {
        validation: live && staged && !off,
        raw_additions: action.is_review() && off,
        prose: live && action.is_review() && !matches!(mode, ValidationMode::Findings),
        summary: live && staged,
    }
}

/// One thing that is done once the work on the commits is over.
#[derive(Debug, Clone, Copy, PartialEq, Eq, Structural)]
pub enum RunPhase {
    /// Validate what the stages added.
    Validate,
    /// Take what the stages added without a validation.
    TakeRawAdditions,
    /// Remove what the reviews handed to the validation.
    StripHandoffs,
    /// Write prose for each commit.
    WriteProse,
    /// Remove the text of reviews in one pass.
    StripSingleReviews,
    /// Summarize the run.
    Summarize,
}

/// The sequence with a phase behind it, if it is wanted.
pub open spec fn then_phase(before: Seq<RunPhase>, wanted: bool, phase: RunPhase) -> Seq<RunPhase> {
    if wanted {
        before.push(phase)
    } else {
        before
    }
}

/// What is done once the work on the commits is over, in its order.
pub open spec fn phase_sequence(p: Phases) -> Seq<RunPhase> {
    let s = then_phase(Seq::empty(), p.validation, RunPhase::Validate);
    let s = then_phase(s, p.raw_additions, RunPhase::TakeRawAdditions);
    let s = s.push(RunPhase::StripHandoffs);
    let s = then_phase(s, p.prose, RunPhase::WriteProse);
    let s = then_phase(s, p.prose, RunPhase::StripSingleReviews);
    then_phase(s, p.summary, RunPhase::Summarize)
}

pub fn phase_list(p: Phases) -> (r: Vec<RunPhase>)
    ensures
        r@ == phase_sequence(p),
{
    let mut r: Vec<RunPhase> = Vec::new();
    if p.validation {
        r.push(RunPhase::Validate);
    }
    if p.raw_additions {
        r.push(RunPhase::TakeRawAdditions);
    }
    r.push(RunPhase::StripHandoffs);
    if p.prose {
        r.push(RunPhase::WriteProse);
        r.push(RunPhase::StripSingleReviews);
    }
    if p.summary {
        r.push(RunPhase::Summarize);
    }
    r
}

/// Whether a phase comes before another wherever both are done.
pub open spec fn comes_before(s: Seq<RunPhase>, first: RunPhase, second: RunPhase) -> bool {
    forall|i: int, j: int|
        0 <= i < s.len() && 0 <= j < s.len() && #[trigger] s[i] == first && #[trigger] s[j] == second
            ==> i < j
}

/// What the reviews handed over is used before it is removed, and it is removed in every run;
/// prose is written, and the run is summarized, from what stays after that; and the text of a
/// review in one pass is removed only once prose was written from it.
pub proof fn lemma_phase_order(p: Phases)
    ensures
        ({
            let s = phase_sequence(p);
            &&& s.contains(RunPhase::StripHandoffs)
            &&& s.contains(RunPhase::StripSingleReviews) <==> s.contains(RunPhase::WriteProse)
            &&& comes_before(s, RunPhase::Validate, RunPhase::StripHandoffs)
            &&& comes_before(s, RunPhase::TakeRawAdditions, RunPhase::StripHandoffs)
            &&& comes_before(s, RunPhase::StripHandoffs, RunPhase::WriteProse)
            &&& comes_before(s, RunPhase::WriteProse, RunPhase::StripSingleReviews)
            &&& comes_before(s, RunPhase::StripHandoffs, RunPhase::Summarize)
        }),
{
    let s1 = then_phase(Seq::empty(), p.validation, RunPhase::Validate);
    let s2 = then_phase(s1, p.raw_additions, RunPhase::TakeRawAdditions);
    let s3 = s2.push(RunPhase::StripHandoffs);
    let s4 = then_phase(s3, p.prose, RunPhase::WriteProse);
    let s = phase_sequence(p);
    assert(s[s2.len() as int] == RunPhase::StripHandoffs);
    if p.prose {
        assert(s[s3.len() as int] == RunPhase::WriteProse);
        assert(s[s4.len() as int] == RunPhase::StripSingleReviews);
    }
}

/// The additions of the stages are never both validated and taken raw; a dry run or a cancelled
/// one asks the model for nothing more; and without a review there is no phase at all.
pub proof fn lemma_phases(
    action: CommitAction,
    mode: ValidationMode,
    dry_run: bool,
    cancelled: bool,
)
    ensures
        ({
            let p = phases_of(action, mode, dry_run, cancelled);
            &&& !(p.validation && p.raw_additions)
            &&& dry_run || cancelled ==> !p.validation && !p.prose && !p.summary
            &&& !(action is Review) ==> !p.validation && !p.raw_additions && !p.prose && !p.summary
            &&& is_staged_review(action) && !dry_run && !cancelled ==> p.validation
                || p.raw_additions
        }),
{
}

// ---------------------------------------------------------------------------------------------
// Putting the reports of the commits together
// ---------------------------------------------------------------------------------------------

/// The report of a commit that is finished, with its place in the range and what it used.
#[verifier::ext_equal]
pub struct FinishedView {
    pub index: nat,
    pub report: JsonView,
    pub used: Counts,
}

pub open spec fn finished_views(finished: Seq<(usize, Json, RunTotals)>) -> Seq<FinishedView> {
    finished.map_values(
        |f: (usize, Json, RunTotals)|
            FinishedView { index: f.0 as nat, report: f.1@, used: f.2@ },
    )
}

/// The reports and what they used.
pub open spec fn report_views(reports: Seq<(Json, RunTotals)>) -> Seq<(JsonView, Counts)> {
    reports.map_values(|r: (Json, RunTotals)| (r.0@, r.1@))
}

/// The report of the commit at a place, among those finished from a given one on.
pub open spec fn finished_at(finished: Seq<FinishedView>, index: nat, from: int) -> Option<
    (JsonView, Counts),
>
    decreases finished.len() - from,
{
    if from < 0 || from >= finished.len() {
        None
    } else if finished[from].index == index {
        Some((finished[from].report, finished[from].used))
    } else {
        finished_at(finished, index, from + 1)
    }
}

/// The reports of the first `n` commits, in their order. Of a commit that is not finished the
/// state that it was in stands in, if there is one.
pub open spec fn reports_in_order(
    finished: Seq<FinishedView>,
    partial: Seq<(JsonView, Counts)>,
    n: nat,
) -> Seq<(JsonView, Counts)>
    decreases n,
{
    if n == 0 {
        Seq::empty()
    } else {
        let index = (n - 1) as nat;
        let before = reports_in_order(finished, partial, index);
        match finished_at(finished, index, 0) {
            Some(report) => before.push(report),
            None => if index < partial.len() {
                before.push(partial[index as int])
            } else {
                before
            },
        }
    }
}

fn find_finished(finished: &Vec<(usize, Json, RunTotals)>, index: usize) -> (r: Option<(Json, RunTotals)>)
    ensures
        match r {
            Some(report) => finished_at(finished_views(finished@), index as nat, 0) == Some(
                (report.0@, report.1@),
            ),
            None => finished_at(finished_views(finished@), index as nat, 0) is None,
        },
{
    let ghost all = finished_views(finished@);
    let mut i: usize = 0;
    while i < finished.len()
        invariant
            i <= finished@.len(),
            all == finished_views(finished@),
            finished_at(all, index as nat, 0) == finished_at(all, index as nat, i as int),
        decreases finished@.len() - i,
    {
        assert(all[i as int].index == finished@[i as int].0);
        if finished[i].0 == index {
            return Some((finished[i].1.clone(), finished[i].2));
        }
        i += 1;
    }
    None
}

/// Puts the reports of the commits in order. They come as the commits finish; of a run that was
/// cancelled, `partial` holds the state in which each commit was.
pub fn order_reports(
    finished: &Vec<(usize, Json, RunTotals)>,
    partial: &Vec<(Json, RunTotals)>,
    commits: usize,
) -> (r: Vec<(Json, RunTotals)>)
    ensures
        report_views(r@) == reports_in_order(
            finished_views(finished@),
            report_views(partial@),
            commits as nat,
        ),
{
    let ghost done = finished_views(finished@);
    let ghost rest = report_views(partial@);
    let mut out: Vec<(Json, RunTotals)> = Vec::new();
    let mut i: usize = 0;
    assert(report_views(out@) =~= Seq::<(JsonView, Counts)>::empty());
    while i < commits
        invariant
            i <= commits,
            done == finished_views(finished@),
            rest == report_views(partial@),
            report_views(out@) == reports_in_order(done, rest, i as nat),
        decreases commits - i,
    {
        let ghost before = report_views(out@);
        match find_finished(finished, i) {
            Some(report) => {
                out.push(report);
                assert(report_views(out@) =~= before.push((report.0@, report.1@)));
            },
            None => {
                assert(rest.len() == partial@.len());
                if i < partial.len() {
                    let report = (partial[i].0.clone(), partial[i].1);
                    out.push(report);
                    assert(report_views(out@) =~= before.push(rest[i as int]));
                }
            },
        }
        i += 1;
    }
    out
}

/// A cancelled run still reports on every one of its commits.
pub proof fn lemma_cancelled_run_reports_all(
    finished: Seq<FinishedView>,
    partial: Seq<(JsonView, Counts)>,
    n: nat,
)
    requires
        n <= partial.len(),
    ensures
        reports_in_order(finished, partial, n).len() == n,
        forall|i: int|
            0 <= i < n ==> #[trigger] reports_in_order(finished, partial, n)[i] == match finished_at(
                finished,
                i as nat,
                0,
            ) {
                Some(report) => report,
                None => partial[i],
            },
    decreases n,
{
    if n > 0 {
        lemma_cancelled_run_reports_all(finished, partial, (n - 1) as nat);
        let before = reports_in_order(finished, partial, (n - 1) as nat);
        let after = reports_in_order(finished, partial, n);
        assert forall|i: int| 0 <= i < n implies #[trigger] after[i] == match finished_at(
            finished,
            i as nat,
            0,
        ) {
            Some(report) => report,
            None => partial[i],
        } by {
            if i < n - 1 {
                assert(after[i] == before[i]);
            }
        }
    }
}

/// A run of which every commit finished reports on every one of them, in their order.
pub proof fn lemma_finished_run_reports_all(finished: Seq<FinishedView>, n: nat)
    requires
        forall|i: nat| i < n ==> #[trigger] finished_at(finished, i, 0) is Some,
    ensures
        reports_in_order(finished, Seq::empty(), n).len() == n,
        forall|i: int|
            0 <= i < n ==> Some(#[trigger] reports_in_order(finished, Seq::empty(), n)[i])
                == finished_at(finished, i as nat, 0),
    decreases n,
{
    if n > 0 {
        let m = (n - 1) as nat;
        assert(finished_at(finished, m, 0) is Some);
        lemma_finished_run_reports_all(finished, m);
        let before = reports_in_order(finished, Seq::empty(), m);
        let after = reports_in_order(finished, Seq::empty(), n);
        assert forall|i: int| 0 <= i < n implies Some(#[trigger] after[i]) == finished_at(
            finished,
            i as nat,
            0,
        ) by {
            if i < m {
                assert(after[i] == before[i]);
            }
        }
    }
}

/// What the commits used together.
pub open spec fn used_together(reports: Seq<(JsonView, Counts)>) -> Counts
    decreases reports.len(),
{
    if reports.len() == 0 {
        no_counts()
    } else {
        plus(used_together(reports.drop_last()), reports.last().1)
    }
}

/// Whether counts fit into a run's totals.
pub open spec fn totals_fit(c: Counts) -> bool {
    c.api_calls <= u32::MAX && tokens_fit(c)
}

proof fn lemma_used_together_grows(reports: Seq<(JsonView, Counts)>, k: int)
    requires
        0 <= k <= reports.len(),
        totals_fit(used_together(reports)),
    ensures
        totals_fit(used_together(reports.take(k))),
    decreases reports.len() - k,
{
    if k < reports.len() {
        lemma_used_together_grows(reports, k + 1);
        assert(reports.take(k + 1).drop_last() =~= reports.take(k));
    } else {
        assert(reports.take(k) =~= reports);
    }
}

/// Sums up what the commits used; none if it is more than can be counted.
pub fn sum_used(reports: &Vec<(Json, RunTotals)>) -> (r: Option<RunTotals>)
    ensures
        match r {
            Some(totals) => totals@ == used_together(report_views(reports@)),
            None => !totals_fit(used_together(report_views(reports@))),
        },
{
    let ghost all = report_views(reports@);
    let mut totals = RunTotals::new();
    let mut i: usize = 0;
    assert(all.take(0) =~= Seq::<(JsonView, Counts)>::empty());
    while i < reports.len()
        invariant
            i <= reports@.len(),
            all == report_views(reports@),
            totals@ == used_together(all.take(i as int)),
        decreases reports@.len() - i,
    {
        proof {
            let next = all.take(i + 1);
            assert(next.drop_last() =~= all.take(i as int));
            assert(next.last() == (reports@[i as int].0@, reports@[i as int].1@));
            if totals_fit(used_together(all)) {
                lemma_used_together_grows(all, i + 1);
            }
        }
        if !totals.can_merge(&reports[i].1) {
            return None;
        }
        totals.merge_from(reports[i].1);
        i += 1;
    }
    assert(all.take(i as int) =~= all);
    Some(totals)
}

// ---------------------------------------------------------------------------------------------
// The report of a run
// ---------------------------------------------------------------------------------------------

/// What a report says of its run.
#[derive(Debug, Clone)]
pub struct RunInfo {
    pub range: String,
    pub model_id: String,
    pub verbose: bool,
    pub validation_mode: ValidationMode,
    pub cancelled: bool,
}

/// The report of a run before its phases.
pub open spec fn run_value(info: RunInfo, action: CommitAction, commits: Seq<JsonView>) -> JsonView {
    let report = JsonView::Object(
        Map::empty().insert("schema_version"@, number(1)).insert(
            "range"@,
            JsonView::Text(info.range@),
        ).insert("subcommand"@, JsonView::Text(action_name(action))).insert(
            "model"@,
            JsonView::Text(info.model_id@),
        ).insert("verbose"@, JsonView::Bool(info.verbose)).insert(
            "commits"@,
            JsonView::List(commits),
        ),
    );
    let report = if action is Review {
        with_field(report, "validation_mode"@, JsonView::Text(mode_name(info.validation_mode)))
    } else {
        report
    };
    if info.cancelled {
        with_field(report, "cancelled"@, JsonView::Bool(true))
    } else {
        report
    }
}

/// Begins the report of a run.
pub fn run_report(info: &RunInfo, action: &CommitAction, commits: Vec<Json>) -> (r: Json)
    ensures
        r@ == run_value(*info, *action, views(commits@)),
{
    let mut report = Json::object().with("schema_version", Json::number(1)).with(
        "range",
        Json::text(info.range.as_str()),
    ).with("subcommand", Json::text(action.label())).with(
        "model",
        Json::text(info.model_id.as_str()),
    ).with("verbose", Json::Bool(info.verbose)).with("commits", Json::list(commits));
    if action.is_review() {
        report.set("validation_mode", Json::text(info.validation_mode.label()));
    }
    if info.cancelled {
        report.set("cancelled", Json::Bool(true));
    }
    report
}

/// A commit whose findings are followed by what the stages added. What was found first stays, and
/// an addition that is known already is left out.
pub open spec fn with_additions(commit: JsonView) -> JsonView {
    with_field(
        commit,
        "findings"@,
        JsonView::List(
            merged(
                list_or_empty(commit, "findings"@),
                list_or_empty(commit, "_additional_findings"@),
            ),
        ),
    )
}

/// Takes what the stages added to the commits without a validation.
pub fn take_raw_additions(out: &mut Json)
    requires
        takes_members(old(out)@),
        forall|i: int|
            0 <= i < list_or_empty(old(out)@, "commits"@).len() ==> takes_members(
                #[trigger] list_or_empty(old(out)@, "commits"@)[i],
            ),
    ensures
        final(out)@ == with_commits(
            old(out)@,
            list_or_empty(old(out)@, "commits"@).map_values(|c: JsonView| with_additions(c)),
        ),
{
    let commits = out.list_or_empty("commits");
    let mut changed: Vec<Json> = Vec::new();
    let mut i: usize = 0;
    while i < commits.len()
        invariant
            i <= commits@.len(),
            changed@.len() == i,
            forall|k: int| 0 <= k < i ==> (#[trigger] changed@[k])@ == with_additions(commits@[k]@),
        decreases commits@.len() - i,
    {
        let baseline = commits[i].list_or_empty("findings");
        let additions = commits[i].list_or_empty("_additional_findings");
        let all = merge_novel_findings(&baseline, &additions);
        changed.push(commits[i].clone().with("findings", Json::list(all)));
        i += 1;
    }
    assert(views(changed@) =~= views(commits@).map_values(|c: JsonView| with_additions(c)));
    set_commits(out, changed);
}

/// A commit without what its review handed to the validation.
pub open spec fn without_handoffs(commit: JsonView) -> JsonView {
    without_field(
        without_field(
            without_field(commit, "_validation_context"@),
            "_additional_findings"@,
        ),
        "_baseline_challenges"@,
    )
}

/// Removes what the reviews handed to the validation.
pub fn strip_handoffs(out: &mut Json)
    requires
        takes_members(old(out)@),
    ensures
        final(out)@ == with_commits(
            old(out)@,
            list_or_empty(old(out)@, "commits"@).map_values(|c: JsonView| without_handoffs(c)),
        ),
{
    let commits = out.list_or_empty("commits");
    let mut changed: Vec<Json> = Vec::new();
    let mut i: usize = 0;
    while i < commits.len()
        invariant
            i <= commits@.len(),
            changed@.len() == i,
            forall|k: int|
                0 <= k < i ==> (#[trigger] changed@[k])@ == without_handoffs(commits@[k]@),
        decreases commits@.len() - i,
    {
        let mut commit = commits[i].clone();
        commit.remove("_validation_context");
        commit.remove("_additional_findings");
        commit.remove("_baseline_challenges");
        changed.push(commit);
        i += 1;
    }
    assert(views(changed@) =~= views(commits@).map_values(|c: JsonView| without_handoffs(c)));
    set_commits(out, changed);
}

/// Removes the text of reviews in one pass, once the prose is written.
pub fn strip_single_reviews(out: &mut Json)
    requires
        takes_members(old(out)@),
    ensures
        final(out)@ == with_commits(
            old(out)@,
            list_or_empty(old(out)@, "commits"@).map_values(
                |c: JsonView| without_field(c, "_fast_review"@),
            ),
        ),
{
    let commits = out.list_or_empty("commits");
    let mut changed: Vec<Json> = Vec::new();
    let mut i: usize = 0;
    while i < commits.len()
        invariant
            i <= commits@.len(),
            changed@.len() == i,
            forall|k: int|
                0 <= k < i ==> (#[trigger] changed@[k])@ == without_field(
                    commits@[k]@,
                    "_fast_review"@,
                ),
        decreases commits@.len() - i,
    {
        let mut commit = commits[i].clone();
        commit.remove("_fast_review");
        changed.push(commit);
        i += 1;
    }
    assert(views(changed@) =~= views(commits@).map_values(
        |c: JsonView| without_field(c, "_fast_review"@),
    ));
    set_commits(out, changed);
}

/// Ends the report of a run with what it used and how long it took.
pub fn finish_report(out: &mut Json, totals: &RunTotals, wall_ms: u64)
    requires
        takes_members(old(out)@),
    ensures
        final(out)@ == with_field(
            with_field(old(out)@, "usage_summary"@, totals_value(totals@)),
            "wall_ms"@,
            number(wall_ms as int),
        ),
{
    out.set("usage_summary", totals.json());
    out.set("wall_ms", Json::number(wall_ms));
}

/// The exit code of a run.
pub fn exit_code(cancelled: bool) -> (r: i32)
    ensures
        r == if cancelled {
            130
        } else {
            0i32
        },
{
    if cancelled {
        130
    } else {
        0
    }
}

/// Whether a name is that of something handed to the validation.
pub open spec fn is_handoff(name: Seq<char>) -> bool {
    name == "_validation_context"@ || name == "_additional_findings"@ || name
        == "_baseline_challenges"@
}

/// Nothing that a review handed to the validation is left in a report, and all else is.
pub proof fn lemma_handoffs_are_removed(commit: JsonView, name: Seq<char>)
    ensures
        field(without_handoffs(commit), name) == if is_handoff(name) {
            None
        } else {
            field(commit, name)
        },
{
}

/// Without a validation, the findings of a commit begin with those that were found first.
pub proof fn lemma_raw_additions_keep_findings(commit: JsonView)
    ensures
        ({
            let before = list_or_empty(commit, "findings"@);
            let after = list_or_empty(with_additions(commit), "findings"@);
            &&& before.len() <= after.len()
            &&& after.take(before.len() as int) == before
        }),
{
    lemma_merge_keeps_base(
        list_or_empty(commit, "findings"@),
        list_or_empty(commit, "_additional_findings"@),
    );
}

} // verus!
