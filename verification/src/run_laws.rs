//! What holds of runs: what is planned, which phases there are, and what is reported.

use vstd::prelude::*;
use crate::apply::{
    ApplyEvent, ApplyView, RangeView, apply_goes_on, apply_next, apply_range, apply_report,
    is_commit_name, moved, quoted_inside, review_hint_text, shell_quoted, subject_to_report,
};
use crate::findings::merged;
use crate::json::{Json, JsonView, NumberView, field};
use crate::options::{
    Backend, CommitAction, ResolvedModel, ReviewTarget, TargetArg, ValidationMode, action_name,
    goes_without_tools, is_fast_review, mode_name, or_else, series_tag, validation_header_text,
};
use crate::review_laws::is_list_of;
use crate::run::{
    FinishedView, Phases, RunCommand, RunInfo, RunPhase, RunPlan, builds, collapses,
    finished_at, finished_views, is_staged_review, phase_sequence, phases_of, plans_build,
    plans_review, plans_test, report_views, reports_in_order, run_value, target_of, tools_text,
    used_together, with_additions, with_fast_model, without_handoffs,
};
use crate::text::{decimal, find_text, trim};
use crate::text_laws::lemma_find_text_is_first;
use crate::usage::{Counts, RunTotals, no_counts, plus};

verus! {

// ---------------------------------------------------------------------------------------------
// Applying commits
// ---------------------------------------------------------------------------------------------

/// Whether two dots stand at a place.
pub open spec fn has_dots(s: Seq<char>, i: int) -> bool {
    0 <= i && i + 1 < s.len() && s[i] == '.' && s[i + 1] == '.'
}

proof fn lemma_dots(s: Seq<char>)
    ensures
        match find_text(s, ".."@) {
            Some(at) => has_dots(s, at as int) && forall|i: int|
                #[trigger] has_dots(s, i) ==> at <= i,
            None => forall|i: int| !#[trigger] has_dots(s, i),
        },
{
    reveal_strlit("..");
    assert(".."@.len() == 2);
    lemma_find_text_is_first(s, ".."@);
    assert forall|i: int| 0 <= i && i + 2 <= s.len() implies (#[trigger] s.subrange(i, i + 2)
        == ".."@ <==> has_dots(s, i)) by {
        let part = s.subrange(i, i + 2);
        assert(part[0] == s[i] && part[1] == s[i + 1]);
        if has_dots(s, i) {
            assert(part =~= ".."@);
        }
    }
    assert forall|i: int| #[trigger] has_dots(s, i) implies (find_text(s, ".."@) matches Some(at)
        && at <= i) by {
        assert(s.subrange(i, i + 2) == ".."@);
    }
}

/// What has two dots between a base and a tip is a range: the first dots part it, neither side is
/// empty and the tip has no more of them. Without two dots it is a single commit, and all else is
/// malformed.
pub proof fn lemma_apply_range(range: Seq<char>, base: Seq<char>, tip: Seq<char>)
    ensures
        apply_range(range) is Single <==> forall|i: int| !#[trigger] has_dots(range, i),
        (apply_range(range) == RangeView::Range { base, tip }) <==> {
            &&& range == base + seq!['.', '.'] + tip
            &&& base.len() > 0
            &&& tip.len() > 0
            &&& forall|i: int| 0 <= i < base.len() ==> !#[trigger] has_dots(range, i)
            &&& forall|i: int| !#[trigger] has_dots(tip, i)
        },
{
    reveal_strlit("..");
    assert(".."@.len() == 2);
    lemma_dots(range);
    if let Some(at) = find_text(range, ".."@) {
        let a = range.take(at as int);
        let b = range.skip(at as int + 2);
        lemma_dots(b);
        assert(range =~= a + seq!['.', '.'] + b);
        if range == base + seq!['.', '.'] + tip && (forall|i: int|
            0 <= i < base.len() ==> !#[trigger] has_dots(range, i)) {
            assert(has_dots(range, base.len() as int));
            assert(at == base.len());
            assert(a =~= base);
            assert(b =~= tip);
        }
    } else {
        if range == base + seq!['.', '.'] + tip {
            assert(has_dots(range, base.len() as int));
        }
    }
}

/// The name of a commit is made of hexadecimal digits.
pub proof fn lemma_commit_name(s: Seq<char>)
    ensures
        is_commit_name(s) <==> forall|i: int|
            #![trigger s[i]]
            0 <= i < s.len() ==> 48 <= s[i] as u32 <= 57 || 65 <= s[i] as u32 <= 70 || 97
                <= s[i] as u32 <= 102,
{
    assert forall|i: int|
        #![trigger s[i]]
        0 <= i < s.len() implies crate::text::is_hex_digit(s[i]) == (48 <= s[i] as u32 <= 57 || 65
        <= s[i] as u32 <= 70 || 97 <= s[i] as u32 <= 102) by {
        crate::text_laws::lemma_character_classes(s[i]);
    }
}

/// What was applied is the range from the commit before to the commit after, and nothing if they
/// are the same.
pub proof fn lemma_moved(before: Seq<char>, after: Seq<char>)
    ensures
        before == after ==> moved(before, after) is None,
        before != after ==> moved(before, after) == Some(before + ".."@ + after),
{
}

/// A commit that was applied adds its report behind the others and its code as the exit code; one
/// that failed, and an interruption, stop the run. After that, and once all commits were taken,
/// nothing changes any more.
pub proof fn lemma_apply_event(s: ApplyView, report: Json, code: i32, event: ApplyEvent)
    ensures
        apply_goes_on(s) <==> !s.stopped && s.reports.len() < s.total,
        !apply_goes_on(s) ==> apply_next(s, event) == s,
        apply_goes_on(s) ==> {
            let next = apply_next(s, ApplyEvent::Finished { report, code });
            &&& next.total == s.total
            &&& next.reports == s.reports.push(report@)
            &&& next.exit_code == code
            &&& next.stopped <==> code != 0
        },
        apply_goes_on(s) ==> {
            let next = apply_next(s, ApplyEvent::Interrupted);
            &&& next.total == s.total
            &&& next.reports == s.reports
            &&& next.exit_code == 130
            &&& next.stopped
        },
{
}

proof fn lemma_apply_names_differ()
    ensures
        "schema_version"@ != "subcommand"@,
        "schema_version"@ != "range"@,
        "schema_version"@ != "applied_range"@,
        "schema_version"@ != "commits"@,
        "schema_version"@ != "message_id"@,
        "subcommand"@ != "range"@,
        "subcommand"@ != "applied_range"@,
        "subcommand"@ != "commits"@,
        "subcommand"@ != "message_id"@,
        "range"@ != "applied_range"@,
        "range"@ != "commits"@,
        "range"@ != "message_id"@,
        "applied_range"@ != "commits"@,
        "applied_range"@ != "message_id"@,
        "commits"@ != "message_id"@,
{
    reveal_strlit("schema_version");
    reveal_strlit("subcommand");
    reveal_strlit("range");
    reveal_strlit("applied_range");
    reveal_strlit("commits");
    reveal_strlit("message_id");
    assert("schema_version"@.len() == 14 && "subcommand"@.len() == 10 && "range"@.len() == 5
        && "applied_range"@.len() == 13 && "commits"@.len() == 7 && "message_id"@.len() == 10);
    assert("subcommand"@[0] != "message_id"@[0]);
}

/// A single commit is reported as it is; a range with all the reports in their order, the range
/// that was asked for and the one that was applied, and the message it came from.
pub proof fn lemma_apply_report_members(
    s: ApplyView,
    range: Seq<char>,
    applied: Option<Seq<char>>,
    message_id: Option<Seq<char>>,
    name: Seq<char>,
)
    ensures
        s.reports.len() == 0 ==> apply_report(s, false, range, applied, message_id) is None,
        s.reports.len() > 0 ==> apply_report(s, false, range, applied, message_id) == Some(
            s.reports[0],
        ),
        apply_report(s, true, range, applied, message_id) matches Some(report) && {
            &&& field(report, "schema_version"@) == Some(JsonView::Number(NumberView::Integer(2)))
            &&& field(report, "subcommand"@) == Some(JsonView::Text("apply"@))
            &&& field(report, "range"@) == Some(JsonView::Text(range))
            &&& applied matches Some(a) ==> field(report, "applied_range"@) == Some(
                JsonView::Text(a),
            )
            &&& applied is None ==> field(report, "applied_range"@) == Some(JsonView::Null)
            &&& field(report, "commits"@) == Some(JsonView::List(s.reports))
            &&& message_id matches Some(id) ==> field(report, "message_id"@) == Some(
                JsonView::Text(id),
            )
            &&& message_id is None ==> field(report, "message_id"@) is None
            &&& name != "schema_version"@ && name != "subcommand"@ && name != "range"@ && name
                != "applied_range"@ && name != "commits"@ && name != "message_id"@ ==> field(
                report,
                name,
            ) is None
        },
{
    lemma_apply_names_differ();
}

/// The subject that is given counts; without one that of the commit, without its outer white space
/// and unless it is blank.
pub proof fn lemma_subject(given: Seq<char>, other: Option<Seq<char>>, from_git: Seq<char>)
    ensures
        subject_to_report(Some(given), other) == Some(given),
        trim(from_git).len() > 0 ==> subject_to_report(None, Some(from_git)) == Some(
            trim(from_git),
        ),
        trim(from_git).len() == 0 ==> subject_to_report(None, Some(from_git)) is None,
        subject_to_report(None, None) is None,
{
}

/// Inside the quotes every character but a quote stands for itself.
pub proof fn lemma_quoted_one_more(s: Seq<char>, c: char)
    ensures
        quoted_inside(Seq::empty()).len() == 0,
        c != '\'' ==> quoted_inside(s.push(c)) == quoted_inside(s).push(c),
        c == '\'' ==> quoted_inside(s.push(c)) == quoted_inside(s) + seq![
            '\'',
            '"',
            '\'',
            '"',
            '\'',
        ],
        shell_quoted(s) == seq!['\''] + quoted_inside(s) + seq!['\''],
{
    assert(s.push(c).drop_last() =~= s);
    reveal_strlit("'\"'\"'");
    reveal_strlit("'");
    assert("'"@ =~= seq!['\'']);
    assert("'\"'\"'"@ =~= seq!['\'', '"', '\'', '"', '\'']);
    assert(quoted_inside(s) + seq![c] =~= quoted_inside(s).push(c));
}

// ---------------------------------------------------------------------------------------------
// Plans
// ---------------------------------------------------------------------------------------------

/// The plan of a review: the range as it is given, eight commits at a time, and no validation if
/// it is in one pass.
pub proof fn lemma_review_plan(
    target: TargetArg,
    fast: bool,
    no_tools: bool,
    max_context_size: usize,
    validation_mode: ValidationMode,
    upstream: String,
    upstream_branch: String,
    range: String,
    plan: RunPlan,
)
    requires
        plans_review(
            RunCommand::Review {
                target,
                fast,
                no_tools,
                max_context_size,
                validation_mode,
                upstream,
                upstream_branch,
                range,
            },
            plan,
        ),
    ensures
        plan.selector == range,
        plan.default_workers == 8,
        fast ==> plan.validation_mode is Off,
        !fast ==> plan.validation_mode == validation_mode,
        plan.action matches CommitAction::Review {
            target: t,
            fast: f,
            no_tools: n,
            max_context_size: m,
            upstream: u,
            upstream_branch: b,
            fast_review_model: model,
        } && {
            &&& t is Kernel <==> target is Kernel
            &&& t is Qemu <==> target is Qemu
            &&& f == fast
            &&& n == no_tools
            &&& m == max_context_size
            &&& u == upstream
            &&& b == upstream_branch
            &&& model is None
        },
{
}

/// The plans of builds and tests: one commit at a time, no validation, and a test of a
/// configuration option in place of that of a range.
pub proof fn lemma_test_plan(
    timeout_secs: u64,
    plan_only: bool,
    range: String,
    plan: RunPlan,
)
    ensures
        plans_build(RunCommand::TestBuild { range }, plan) ==> {
            &&& plan.action is TestBuild
            &&& plan.selector == range
            &&& plan.default_workers == 1
            &&& plan.validation_mode is Off
        },
        plans_test(
            RunCommand::TestBoot { timeout_secs, plan_only, config: None, range: Some(range) },
            plan,
        ) ==> {
            &&& plan.selector == range
            &&& plan.default_workers == 1
            &&& plan.validation_mode is Off
            &&& plan.action matches CommitAction::TestBoot {
                timeout_secs: t,
                plan_only: p,
                target,
            } && t == timeout_secs && p == plan_only && target.selection is Commit
                && target.uses_commit_metadata
        },
{
}

/// Builds and tests build, but for a test that is only planned; only such a test of a range is
/// told once for all of its commits.
pub proof fn lemma_what_builds(action: CommitAction, commits: nat)
    ensures
        action is Review ==> !builds(action) && !collapses(action, commits),
        action is TestBuild ==> builds(action) && !collapses(action, commits),
        action matches CommitAction::TestBoot { plan_only, target, .. } ==> {
            &&& builds(action) <==> !plan_only
            &&& collapses(action, commits) <==> plan_only && target.selection is Commit && commits
                > 1
        },
{
}

/// A review by stages is one that is not in one pass.
pub proof fn lemma_staged(action: CommitAction)
    ensures
        is_staged_review(action) <==> (action matches CommitAction::Review { fast, .. } && !fast),
{
}

/// Which phases a run has.
pub proof fn lemma_phases_wanted(
    action: CommitAction,
    mode: ValidationMode,
    dry_run: bool,
    cancelled: bool,
)
    ensures
        ({
            let p = phases_of(action, mode, dry_run, cancelled);
            let staged = action matches CommitAction::Review { fast, .. } && !fast;
            &&& p.validation <==> !dry_run && !cancelled && staged && (mode is Filter || mode
                is Findings)
            &&& p.raw_additions <==> action is Review && mode is Off
            &&& p.prose <==> !dry_run && !cancelled && action is Review && (mode is Off || mode
                is Filter)
            &&& p.summary <==> !dry_run && !cancelled && staged
        }),
{
}

/// Every phase that is wanted is run, and no other, once each; what was handed over is always
/// removed.
pub proof fn lemma_phases_run(p: Phases)
    ensures
        phase_sequence(p).contains(RunPhase::Validate) <==> p.validation,
        phase_sequence(p).contains(RunPhase::TakeRawAdditions) <==> p.raw_additions,
        phase_sequence(p).contains(RunPhase::StripHandoffs),
        phase_sequence(p).contains(RunPhase::WriteProse) <==> p.prose,
        phase_sequence(p).contains(RunPhase::StripSingleReviews) <==> p.prose,
        phase_sequence(p).contains(RunPhase::Summarize) <==> p.summary,
        forall|i: int, j: int|
            0 <= i < j < phase_sequence(p).len() ==> #[trigger] phase_sequence(p)[i]
                != #[trigger] phase_sequence(p)[j],
{
    let a = Seq::<RunPhase>::empty();
    let b = one_more(a, p.validation, RunPhase::Validate);
    lemma_one_more_phase(a, p.validation, RunPhase::Validate);
    let c = one_more(b, p.raw_additions, RunPhase::TakeRawAdditions);
    lemma_one_more_phase(b, p.raw_additions, RunPhase::TakeRawAdditions);
    let d = one_more(c, true, RunPhase::StripHandoffs);
    lemma_one_more_phase(c, true, RunPhase::StripHandoffs);
    let e = one_more(d, p.prose, RunPhase::WriteProse);
    lemma_one_more_phase(d, p.prose, RunPhase::WriteProse);
    let f = one_more(e, p.prose, RunPhase::StripSingleReviews);
    lemma_one_more_phase(e, p.prose, RunPhase::StripSingleReviews);
    lemma_one_more_phase(f, p.summary, RunPhase::Summarize);
    assert(phase_sequence(p) =~= one_more(f, p.summary, RunPhase::Summarize));
}

spec fn one_more(s: Seq<RunPhase>, wanted: bool, phase: RunPhase) -> Seq<RunPhase> {
    if wanted {
        s.push(phase)
    } else {
        s
    }
}

proof fn lemma_one_more_phase(s: Seq<RunPhase>, wanted: bool, phase: RunPhase)
    requires
        !s.contains(phase),
        forall|i: int, j: int| 0 <= i < j < s.len() ==> #[trigger] s[i] != #[trigger] s[j],
    ensures
        ({
            let t = one_more(s, wanted, phase);
            &&& forall|x: RunPhase|
                #[trigger] t.contains(x) <==> s.contains(x) || (wanted && x == phase)
            &&& forall|i: int, j: int| 0 <= i < j < t.len() ==> #[trigger] t[i] != #[trigger] t[j]
        }),
{
    let t = one_more(s, wanted, phase);
    assert forall|x: RunPhase| #[trigger] t.contains(x) <==> s.contains(x) || (wanted && x
        == phase) by {
        if s.contains(x) {
            let k = choose|k: int| 0 <= k < s.len() && s[k] == x;
            assert(t[k] == x);
        }
        if wanted {
            assert(t[s.len() as int] == phase);
        }
        if t.contains(x) {
            let k = choose|k: int| 0 <= k < t.len() && t[k] == x;
            if k < s.len() {
                assert(s[k] == x);
            }
        }
    }
    assert forall|i: int, j: int| 0 <= i < j < t.len() implies #[trigger] t[i] != #[trigger] t[j] by {
        assert(s[i] == t[i]);
        if j < s.len() {
            assert(s[j] == t[j]);
        }
    }
}

/// Only reviews use tools, and a backend with a program of its own uses that one's.
pub proof fn lemma_tools_text(action: CommitAction, given: Seq<char>)
    ensures
        !(action is Review) ==> forall|b: Backend|
            #[trigger] tools_text(action, b, given) == "n/a (build/test do not call repo tools)"@,
        action is Review ==> {
            &&& tools_text(action, Backend::Claude, given) == "delegated to "@ + given
                + " CLI (boro tool sandbox bypassed)"@
            &&& tools_text(action, Backend::Opencode, given) == "delegated to "@
                + "opencode"@ + " CLI (boro tool sandbox bypassed)"@
            &&& tools_text(action, Backend::Codex, given) == "delegated to "@
                + "codex"@ + " CLI (boro tool sandbox bypassed)"@
        },
        action matches CommitAction::Review { no_tools, .. } && no_tools ==> tools_text(
            action,
            Backend::OpenAi,
            given,
        ) == "disabled (--no-tools)"@,
        action matches CommitAction::Review { no_tools, .. } && !no_tools ==> tools_text(
            action,
            Backend::OpenAi,
            given,
        )
            == "enabled (grep_repo, read_files, read_symbol, git history/diff/show, run_git, rg - review, specialists, validation, LKML; not phase 0 or consolidation)"@,
{
}

// ---------------------------------------------------------------------------------------------
// Reports
// ---------------------------------------------------------------------------------------------

proof fn lemma_finished_from(finished: Seq<FinishedView>, index: nat, from: int)
    requires
        0 <= from,
    ensures
        finished_at(finished, index, from) is None ==> forall|k: int|
            from <= k < finished.len() ==> (#[trigger] finished[k]).index != index,
        finished_at(finished, index, from) matches Some(r) ==> exists|k: int|
            from <= k < finished.len() && (#[trigger] finished[k]).index == index && r == (
                finished[k].report,
                finished[k].used,
            ) && forall|j: int| from <= j < k ==> (#[trigger] finished[j]).index != index,
    decreases finished.len() - from,
{
    if from < finished.len() {
        if finished[from].index == index {
            assert(finished[from].index == index);
        } else {
            lemma_finished_from(finished, index, from + 1);
            if let Some(r) = finished_at(finished, index, from + 1) {
                let k = choose|k: int|
                    from + 1 <= k < finished.len() && (#[trigger] finished[k]).index == index && r
                        == (finished[k].report, finished[k].used) && forall|j: int|
                        from + 1 <= j < k ==> (#[trigger] finished[j]).index != index;
                assert(finished[k].index == index);
            }
        }
    }
}

/// The report of a commit is the first finished one with its place, and there is none exactly if
/// none has it.
pub proof fn lemma_finished_first(finished: Seq<FinishedView>, index: nat)
    ensures
        finished_at(finished, index, 0) is None <==> forall|k: int|
            0 <= k < finished.len() ==> (#[trigger] finished[k]).index != index,
        forall|k: int|
            0 <= k < finished.len() && (#[trigger] finished[k]).index == index && (forall|j: int|
                0 <= j < k ==> (#[trigger] finished[j]).index != index) ==> finished_at(
                finished,
                index,
                0,
            ) == Some((finished[k].report, finished[k].used)),
{
    lemma_finished_from(finished, index, 0);
    assert forall|k: int|
        0 <= k < finished.len() && (#[trigger] finished[k]).index == index && (forall|j: int|
            0 <= j < k ==> (#[trigger] finished[j]).index != index) implies finished_at(
        finished,
        index,
        0,
    ) == Some((finished[k].report, finished[k].used)) by {
        if let Some(r) = finished_at(finished, index, 0) {
            let m = choose|m: int|
                0 <= m < finished.len() && (#[trigger] finished[m]).index == index && r == (
                    finished[m].report,
                    finished[m].used,
                ) && forall|j: int| 0 <= j < m ==> (#[trigger] finished[j]).index != index;
            assert(finished[m].index == index);
            assert(m == k);
        }
    }
}

/// The reports stand in the order of the places: the finished one of a place, or else the partial
/// one; a place without either is left out.
pub proof fn lemma_reports_one_more(
    finished: Seq<FinishedView>,
    partial: Seq<(JsonView, Counts)>,
    n: nat,
)
    ensures
        reports_in_order(finished, partial, 0).len() == 0,
        finished_at(finished, n, 0) matches Some(report) ==> reports_in_order(
            finished,
            partial,
            n + 1,
        ) == reports_in_order(finished, partial, n).push(report),
        finished_at(finished, n, 0) is None && n < partial.len() ==> reports_in_order(
            finished,
            partial,
            n + 1,
        ) == reports_in_order(finished, partial, n).push(partial[n as int]),
        finished_at(finished, n, 0) is None && n >= partial.len() ==> reports_in_order(
            finished,
            partial,
            n + 1,
        ) == reports_in_order(finished, partial, n),
{
}

/// What the commits used is added up over all of them.
pub proof fn lemma_used_one_more(reports: Seq<(JsonView, Counts)>, report: JsonView, used: Counts)
    ensures
        used_together(Seq::empty()) == no_counts(),
        used_together(reports.push((report, used))) == plus(used_together(reports), used),
{
    assert(reports.push((report, used)).drop_last() =~= reports);
}

proof fn lemma_run_names_differ()
    ensures
        "schema_version"@ != "range"@,
        "schema_version"@ != "subcommand"@,
        "schema_version"@ != "model"@,
        "schema_version"@ != "verbose"@,
        "schema_version"@ != "commits"@,
        "schema_version"@ != "validation_mode"@,
        "schema_version"@ != "cancelled"@,
        "range"@ != "subcommand"@,
        "range"@ != "model"@,
        "range"@ != "verbose"@,
        "range"@ != "commits"@,
        "range"@ != "validation_mode"@,
        "range"@ != "cancelled"@,
        "subcommand"@ != "model"@,
        "subcommand"@ != "verbose"@,
        "subcommand"@ != "commits"@,
        "subcommand"@ != "validation_mode"@,
        "subcommand"@ != "cancelled"@,
        "model"@ != "verbose"@,
        "model"@ != "commits"@,
        "model"@ != "validation_mode"@,
        "model"@ != "cancelled"@,
        "verbose"@ != "commits"@,
        "verbose"@ != "validation_mode"@,
        "verbose"@ != "cancelled"@,
        "commits"@ != "validation_mode"@,
        "commits"@ != "cancelled"@,
        "validation_mode"@ != "cancelled"@,
{
    reveal_strlit("schema_version");
    reveal_strlit("range");
    reveal_strlit("subcommand");
    reveal_strlit("model");
    reveal_strlit("verbose");
    reveal_strlit("commits");
    reveal_strlit("validation_mode");
    reveal_strlit("cancelled");
    assert("schema_version"@.len() == 14 && "range"@.len() == 5 && "subcommand"@.len() == 10
        && "model"@.len() == 5 && "verbose"@.len() == 7 && "commits"@.len() == 7
        && "validation_mode"@.len() == 15 && "cancelled"@.len() == 9);
    assert("range"@[0] != "model"@[0]);
    assert("verbose"@[0] != "commits"@[0]);
}

/// The report of a run has all the commits, and says what was asked for; a review says how it is
/// validated, and a run that was cancelled says so.
pub proof fn lemma_run_members(
    info: RunInfo,
    action: CommitAction,
    commits: Seq<JsonView>,
    name: Seq<char>,
)
    ensures
        ({
            let v = run_value(info, action, commits);
            &&& field(v, "schema_version"@) == Some(JsonView::Number(NumberView::Integer(1)))
            &&& field(v, "range"@) == Some(JsonView::Text(info.range@))
            &&& field(v, "subcommand"@) == Some(JsonView::Text(action_name(action)))
            &&& field(v, "model"@) == Some(JsonView::Text(info.model_id@))
            &&& field(v, "verbose"@) == Some(JsonView::Bool(info.verbose))
            &&& field(v, "commits"@) == Some(JsonView::List(commits))
            &&& field(v, "validation_mode"@) == if action is Review {
                Some(JsonView::Text(mode_name(info.validation_mode)))
            } else {
                None
            }
            &&& field(v, "cancelled"@) == if info.cancelled {
                Some(JsonView::Bool(true))
            } else {
                None
            }
            &&& name != "schema_version"@ && name != "range"@ && name != "subcommand"@ && name
                != "model"@ && name != "verbose"@ && name != "commits"@ && name
                != "validation_mode"@ && name != "cancelled"@ ==> field(v, name) is None
        }),
{
    lemma_run_names_differ();
}

/// Without a validation all the findings of the stages are merged behind those that stand.
pub proof fn lemma_additions_members(
    commit: JsonView,
    findings: Seq<JsonView>,
    additions: Seq<JsonView>,
    name: Seq<char>,
)
    requires
        is_list_of(commit, "findings"@, findings),
        is_list_of(commit, "_additional_findings"@, additions),
    ensures
        field(with_additions(commit), "findings"@) == Some(
            JsonView::List(merged(findings, additions)),
        ),
        name != "findings"@ ==> field(with_additions(commit), name) == field(commit, name),
{
    if findings.len() == 0 {
        assert(findings =~= Seq::empty());
    }
    if additions.len() == 0 {
        assert(additions =~= Seq::empty());
    }
}

/// What the reviews handed to the validation is removed, and nothing else.
pub proof fn lemma_handoff_names(commit: JsonView, name: Seq<char>)
    ensures
        field(without_handoffs(commit), "_validation_context"@) is None,
        field(without_handoffs(commit), "_additional_findings"@) is None,
        field(without_handoffs(commit), "_baseline_challenges"@) is None,
        name != "_validation_context"@ && name != "_additional_findings"@ && name
            != "_baseline_challenges"@ ==> field(without_handoffs(commit), name) == field(
            commit,
            name,
        ),
{
}

// ---------------------------------------------------------------------------------------------
// Names
// ---------------------------------------------------------------------------------------------

/// The names of modes and actions, by which a report is read.
pub proof fn lemma_names(action: CommitAction)
    ensures
        mode_name(ValidationMode::Off) == "off"@,
        mode_name(ValidationMode::Filter) == "filter"@,
        mode_name(ValidationMode::Findings) == "findings"@,
        action is Review ==> action_name(action) == "review"@,
        action is TestBuild ==> action_name(action) == "build"@,
        action is TestBoot ==> action_name(action) == "test"@,
{
}

/// A commit of a series is told by its number and the number of all.
pub proof fn lemma_series_tag(i: nat, n: nat)
    ensures
        series_tag(i, n) == "[PATCH "@ + decimal(i) + "/"@ + decimal(n) + "]"@,
{
}

/// The line about the validation names the model and where it is asked, if these are others than
/// those of the review.
pub proof fn lemma_validation_header(model_id: Seq<char>, base_url: Seq<char>, mode: ValidationMode)
    ensures
        validation_header_text(false, model_id, base_url, mode) == "validation: mode="@ + mode_name(
            mode,
        ) + " (reusing main model + endpoint)"@,
        base_url.len() > 0 ==> validation_header_text(true, model_id, base_url, mode)
            == "validation: mode="@ + mode_name(mode) + " model="@ + model_id + " base_url="@
            + base_url + " (differs from main)"@,
        base_url.len() == 0 ==> validation_header_text(true, model_id, base_url, mode)
            == "validation: mode="@ + mode_name(mode) + " model="@ + model_id + " base_url="@
            + "(n/a)"@ + " (differs from main)"@,
        base_url.len() > 0 ==> or_else(base_url, model_id) == base_url,
        base_url.len() == 0 ==> or_else(base_url, model_id) == model_id,
{
}

/// The finished commits and their reports are known one by one, in their order.
pub proof fn lemma_finished_views(
    finished: Seq<(usize, Json, RunTotals)>,
    reports: Seq<(Json, RunTotals)>,
)
    ensures
        finished_views(finished).len() == finished.len(),
        forall|i: int|
            0 <= i < finished.len() ==> (#[trigger] finished_views(finished)[i]).index
                == finished[i].0 && finished_views(finished)[i].report == finished[i].1@
                && finished_views(finished)[i].used == finished[i].2@,
        report_views(reports).len() == reports.len(),
        forall|i: int|
            0 <= i < reports.len() ==> #[trigger] report_views(reports)[i] == (
                reports[i].0@,
                reports[i].1@,
            ),
{
}

/// What an action says of itself: its target, which is the kernel for all but reviews, whether it
/// is a review in one pass, and whether it is one without tools.
pub proof fn lemma_action_parts(action: CommitAction)
    ensures
        action matches CommitAction::Review { target, fast, no_tools, .. } ==> {
            &&& target_of(action) == target
            &&& is_fast_review(action) <==> fast
            &&& goes_without_tools(action) <==> no_tools
        },
        !(action is Review) ==> target_of(action) == ReviewTarget::Kernel && !is_fast_review(action)
            && !goes_without_tools(action),
{
}

/// A review gets the model of its fast pass and is the same otherwise; all else stays as it is.
pub proof fn lemma_fast_model(action: CommitAction, model: Option<ResolvedModel>)
    ensures
        !(action is Review) ==> with_fast_model(action, model) == action,
        action matches CommitAction::Review {
            target,
            fast,
            no_tools,
            max_context_size,
            upstream,
            upstream_branch,
            fast_review_model,
        } ==> (with_fast_model(action, model) matches CommitAction::Review {
            target: t,
            fast: f,
            no_tools: n,
            max_context_size: m,
            upstream: u,
            upstream_branch: b,
            fast_review_model: after,
        } && t == target && f == fast && n == no_tools && m == max_context_size && u == upstream
            && b == upstream_branch && after == model),
{
}

/// The hint after an application names the repository, quoted for the shell, and what was applied.
pub proof fn lemma_hint(repo: Seq<char>, applied: Seq<char>)
    ensures
        review_hint_text(repo, applied) == "Review with: boro --source "@ + shell_quoted(repo)
            + " review "@ + applied,
{
}

} // verus!
