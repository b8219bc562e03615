//! What a run is asked to do, and what follows from that.

use vstd::prelude::*;
use crate::text::{copy_text, decimal, is_empty, push_decimal, push_text};
use crate::upstream::{short_name, short_sha10};

verus! {

// ---------------------------------------------------------------------------------------------
// Choices
// ---------------------------------------------------------------------------------------------

/// How the model is reached.
#[derive(Debug, Clone, Copy, PartialEq, Eq, Structural)]
pub enum Backend {
    OpenAi,
    Claude,
    Opencode,
    Codex,
}

/// The backend as it is named on the command line.
#[derive(Debug, Clone, Copy, PartialEq, Eq, Structural)]
pub enum BackendArg {
    Openai,
    Claude,
    Opencode,
    Codex,
}

impl BackendArg {
    pub fn to_config(self) -> (r: Backend)
        ensures
            r == match self {
                BackendArg::Openai => Backend::OpenAi,
                BackendArg::Claude => Backend::Claude,
                BackendArg::Opencode => Backend::Opencode,
                BackendArg::Codex => Backend::Codex,
            },
    {
        match self {
            BackendArg::Openai => Backend::OpenAi,
            BackendArg::Claude => Backend::Claude,
            BackendArg::Opencode => Backend::Opencode,
            BackendArg::Codex => Backend::Codex,
        }
    }
}

/// The kind of source tree under review.
#[derive(Debug, Clone, Copy, PartialEq, Eq, Structural)]
pub enum ReviewTarget {
    Kernel,
    Qemu,
}

/// The kind of source tree as it is named on the command line.
#[derive(Debug, Clone, Copy, PartialEq, Eq, Structural)]
pub enum TargetArg {
    Kernel,
    Qemu,
}

impl TargetArg {
    pub fn to_config(self) -> (r: ReviewTarget)
        ensures
            r == match self {
                TargetArg::Kernel => ReviewTarget::Kernel,
                TargetArg::Qemu => ReviewTarget::Qemu,
            },
    {
        match self {
            TargetArg::Kernel => ReviewTarget::Kernel,
            TargetArg::Qemu => ReviewTarget::Qemu,
        }
    }
}

/// Whether the findings of a run are validated, and whether prose is written from the survivors.
#[derive(Debug, Clone, Copy, PartialEq, Eq, Structural)]
pub enum ValidationMode {
    /// No validation; prose from the raw findings.
    Off,
    /// Validation, then prose from the survivors only.
    Filter,
    /// Validation, and no prose.
    Findings,
}

/// The name of a validation mode.
pub open spec fn mode_name(mode: ValidationMode) -> Seq<char> {
    match mode {
        ValidationMode::Off => "off"@,
        ValidationMode::Filter => "filter"@,
        ValidationMode::Findings => "findings"@,
    }
}

impl ValidationMode {
    pub fn label(self) -> (r: &'static str)
        ensures
            r@ == mode_name(self),
    {
        match self {
            ValidationMode::Off => "off",
            ValidationMode::Filter => "filter",
            ValidationMode::Findings => "findings",
        }
    }
}

/// A model as a run names it.
#[derive(Debug, Clone)]
pub struct ResolvedModel {
    pub model_id: String,
    pub base_url: String,
}

/// What the test picker picks tests for.
#[derive(Debug, Clone)]
pub enum TestSelection {
    /// The patch of each commit.
    Commit,
    /// All the commits of a range together.
    CommitRange { range: String, commits: Vec<String> },
    /// A configuration option.
    Config(String),
}

/// The target of a test run.
#[derive(Debug, Clone)]
pub struct TestTarget {
    pub selection: TestSelection,
    /// Whether the reports carry the data of the commits.
    pub uses_commit_metadata: bool,
}

impl TestTarget {
    pub fn is_config(&self) -> (r: bool)
        ensures
            r == (self.selection is Config),
    {
        matches!(self.selection, TestSelection::Config(_))
    }
}

/// What is done with each commit.
#[derive(Debug, Clone)]
pub enum CommitAction {
    Review {
        target: ReviewTarget,
        fast: bool,
        no_tools: bool,
        max_context_size: usize,
        upstream: String,
        upstream_branch: String,
        /// The model of the fast pass that comes before the stages.
        fast_review_model: Option<ResolvedModel>,
    },
    TestBuild,
    TestBoot {
        /// The time that the run in the virtual machine may take. The build may take any.
        timeout_secs: u64,
        /// Whether to stop before anything is built or booted.
        plan_only: bool,
        target: TestTarget,
    },
}

/// The name of an action.
pub open spec fn action_name(action: CommitAction) -> Seq<char> {
    match action {
        CommitAction::Review { .. } => "review"@,
        CommitAction::TestBuild => "build"@,
        CommitAction::TestBoot { .. } => "test"@,
    }
}

/// Whether the action is a review without tools.
pub open spec fn goes_without_tools(action: CommitAction) -> bool {
    action matches CommitAction::Review { no_tools, .. } && no_tools
}

/// Whether the action is a review in one pass.
pub open spec fn is_fast_review(action: CommitAction) -> bool {
    action matches CommitAction::Review { fast, .. } && fast
}

impl CommitAction {
    pub fn label(&self) -> (r: &'static str)
        ensures
            r@ == action_name(*self),
    {
        match self {
            CommitAction::Review { .. } => "review",
            CommitAction::TestBuild => "build",
            CommitAction::TestBoot { .. } => "test",
        }
    }

    /// Whether a review goes without tools. Builds and tests use none anyway.
    pub fn review_no_tools(&self) -> (r: bool)
        ensures
            r == goes_without_tools(*self),
    {
        match self {
            CommitAction::Review { no_tools, .. } => *no_tools,
            _ => false,
        }
    }

    pub fn review_fast(&self) -> (r: bool)
        ensures
            r == is_fast_review(*self),
    {
        match self {
            CommitAction::Review { fast, .. } => *fast,
            _ => false,
        }
    }

    pub fn is_review(&self) -> (r: bool)
        ensures
            r == (self is Review),
    {
        matches!(self, CommitAction::Review { .. })
    }

    pub fn uses_commit_metadata(&self) -> (r: bool)
        ensures
            r == match self {
                CommitAction::TestBoot { target, .. } => target.uses_commit_metadata,
                _ => true,
            },
    {
        match self {
            CommitAction::TestBoot { target, .. } => target.uses_commit_metadata,
            _ => true,
        }
    }
}

// ---------------------------------------------------------------------------------------------
// Labels
// ---------------------------------------------------------------------------------------------

/// The place of a commit in its series.
pub open spec fn series_tag(one_based: nat, total: nat) -> Seq<char> {
    "[PATCH "@ + decimal(one_based) + "/"@ + decimal(total) + "]"@
}

pub fn patch_series_tag(one_based: usize, total: usize) -> (r: String)
    ensures
        r@ == series_tag(one_based as nat, total as nat),
{
    let mut r = copy_text("[PATCH ");
    push_decimal(&mut r, one_based as u64);
    push_text(&mut r, "/");
    push_decimal(&mut r, total as u64);
    push_text(&mut r, "]");
    r
}

/// What the log lines of one commit begin with.
pub fn verbose_worker_line_prefix(one_based: usize, total: usize, sha: &str) -> (r: String)
    ensures
        r@ == series_tag(one_based as nat, total as nat) + " "@ + short_name(sha@) + "]"@,
{
    let mut r = patch_series_tag(one_based, total);
    push_text(&mut r, " ");
    push_text(&mut r, short_sha10(sha).as_str());
    push_text(&mut r, "]");
    r
}

/// What the progress display shows of a stage.
pub fn stage_progress_line(
    patch_tag: &str,
    sha_short: &str,
    step: u32,
    total: u32,
    description: &str,
) -> (r: String)
    ensures
        r@ == patch_tag@ + " "@ + sha_short@ + " [step "@ + decimal(step as nat) + "/"@ + decimal(
            total as nat,
        ) + "] "@ + description@,
{
    let mut r = copy_text(patch_tag);
    push_text(&mut r, " ");
    push_text(&mut r, sha_short);
    push_text(&mut r, " [step ");
    push_decimal(&mut r, step as u64);
    push_text(&mut r, "/");
    push_decimal(&mut r, total as u64);
    push_text(&mut r, "] ");
    push_text(&mut r, description);
    r
}

/// A text, or something else where it is empty.
pub open spec fn or_else(s: Seq<char>, other: Seq<char>) -> Seq<char> {
    if s.len() == 0 {
        other
    } else {
        s
    }
}

fn push_or_else(out: &mut String, s: &str, other: &str)
    ensures
        final(out)@ == old(out)@ + or_else(s@, other@),
{
    if is_empty(s) {
        push_text(out, other);
    } else {
        push_text(out, s);
    }
}

/// What is logged before the validation: its mode, and its model where it differs from the main
/// one.
pub open spec fn validation_header_text(
    differs: bool,
    model_id: Seq<char>,
    base_url: Seq<char>,
    mode: ValidationMode,
) -> Seq<char> {
    if differs {
        "validation: mode="@ + mode_name(mode) + " model="@ + model_id + " base_url="@ + or_else(
            base_url,
            "(n/a)"@,
        ) + " (differs from main)"@
    } else {
        "validation: mode="@ + mode_name(mode) + " (reusing main model + endpoint)"@
    }
}

pub fn validation_header(differs: bool, model: &ResolvedModel, mode: ValidationMode) -> (r: String)
    ensures
        r@ == validation_header_text(differs, model.model_id@, model.base_url@, mode),
{
    let mut r = copy_text("validation: mode=");
    push_text(&mut r, mode.label());
    if differs {
        push_text(&mut r, " model=");
        push_text(&mut r, model.model_id.as_str());
        push_text(&mut r, " base_url=");
        push_or_else(&mut r, model.base_url.as_str(), "(n/a)");
        push_text(&mut r, " (differs from main)");
    } else {
        push_text(&mut r, " (reusing main model + endpoint)");
    }
    r
}

} // verus!
