//! Applying a range of commits, one after the other.

use vstd::prelude::*;
use vstd::slice::*;
use crate::json::{Json, JsonView, copy_list, number, opt_text_value, views, with_field};
use crate::options::{patch_series_tag, series_tag};
use crate::text::{
    char_is_hex_digit, chars_of, copy_text, find_pattern, find_text, has_prefix, is_hex_digit,
    opt_text, push_text, same_text, string_of, trim, trim_chars,
};

verus! {

// ---------------------------------------------------------------------------------------------
// The range
// ---------------------------------------------------------------------------------------------

/// What is to be applied.
#[derive(Debug, Clone)]
pub enum ApplyRange {
    /// One commit.
    Single,
    /// The commits behind the base, up to the tip.
    Range { base: String, tip: String },
    /// Two dots without a name on both sides, or more than once.
    Malformed,
}

/// What is to be applied, with texts as sequences of characters.
pub enum RangeView {
    Single,
    Range { base: Seq<char>, tip: Seq<char> },
    Malformed,
}

impl ApplyRange {
    pub open spec fn view(&self) -> RangeView {
        match *self {
            ApplyRange::Single => RangeView::Single,
            ApplyRange::Range { base, tip } => RangeView::Range { base: base@, tip: tip@ },
            ApplyRange::Malformed => RangeView::Malformed,
        }
    }
}

/// What a text asks to apply: a range if it holds two dots, else one commit.
pub open spec fn apply_range(range: Seq<char>) -> RangeView {
    match find_text(range, ".."@) {
        None => RangeView::Single,
        Some(at) => {
            let base = range.take(at as int);
            let tip = range.skip(at as int + ".."@.len());
            if base.len() == 0 || tip.len() == 0 || find_text(tip, ".."@) is Some {
                RangeView::Malformed
            } else {
                RangeView::Range { base, tip }
            }
        },
    }
}

pub fn parse_apply_range(range: &str) -> (r: ApplyRange)
    ensures
        r@ == apply_range(range@),
{
    let chars = chars_of(range);
    let all = chars.as_slice();
    proof {
        reveal_strlit("..");
        assert(".."@.len() == 2);
    }
    let end: usize = all.len();
    match find_pattern(all, "..") {
        None => ApplyRange::Single,
        Some(at) => {
            let base = slice_subrange(all, 0, at);
            let tip = slice_subrange(all, at + 2, end);
            assert(base@ =~= range@.take(at as int));
            assert(tip@ =~= range@.skip(at + 2));
            if base.len() == 0 || tip.len() == 0 || find_pattern(tip, "..").is_some() {
                ApplyRange::Malformed
            } else {
                ApplyRange::Range { base: string_of(base), tip: string_of(tip) }
            }
        },
    }
}

/// Whether a text holds nothing but hexadecimal digits, as the name of a commit does.
pub open spec fn is_commit_name(s: Seq<char>) -> bool {
    forall|i: int| 0 <= i < s.len() ==> is_hex_digit(#[trigger] s[i])
}

fn all_hex(s: &str) -> (r: bool)
    ensures
        r == is_commit_name(s@),
{
    let chars = chars_of(s);
    let mut i: usize = 0;
    while i < chars.len()
        invariant
            i <= chars@.len(),
            chars@ == s@,
            forall|k: int| 0 <= k < i ==> is_hex_digit(#[trigger] s@[k]),
        decreases chars@.len() - i,
    {
        if !char_is_hex_digit(chars[i]) {
            return false;
        }
        i += 1;
    }
    true
}

/// A range from one commit to another.
pub open spec fn range_text(base: Seq<char>, tip: Seq<char>) -> Seq<char> {
    base + ".."@ + tip
}

fn make_range(base: &str, tip: &str) -> (r: String)
    ensures
        r@ == range_text(base@, tip@),
{
    let mut r = copy_text(base);
    push_text(&mut r, "..");
    push_text(&mut r, tip);
    r
}

/// The range between two ends that were resolved; none unless both are names of commits.
pub fn resolved_range(base: &str, tip: &str) -> (r: Option<String>)
    ensures
        opt_text(r) == if is_commit_name(base@) && is_commit_name(tip@) {
            Some(range_text(base@, tip@))
        } else {
            None
        },
{
    if all_hex(base) && all_hex(tip) {
        Some(make_range(base, tip))
    } else {
        None
    }
}

/// What was applied: the range from where the branch was to where it is, if it moved.
pub open spec fn moved(before: Seq<char>, after: Seq<char>) -> Option<Seq<char>> {
    if before == after {
        None
    } else {
        Some(range_text(before, after))
    }
}

pub fn applied_range(before: &str, after: &str) -> (r: Option<String>)
    ensures
        opt_text(r) == moved(before@, after@),
{
    if same_text(before, after) {
        None
    } else {
        Some(make_range(before, after))
    }
}

// ---------------------------------------------------------------------------------------------
// Applying
// ---------------------------------------------------------------------------------------------

/// What came of one commit.
#[derive(Debug, Clone)]
pub enum ApplyEvent {
    /// Its report and its exit code, zero for success.
    Finished { report: Json, code: i32 },
    /// The user stopped the run.
    Interrupted,
}

/// How far a run has come.
#[verifier::ext_equal]
pub struct ApplyView {
    pub total: nat,
    pub reports: Seq<JsonView>,
    pub exit_code: i32,
    pub stopped: bool,
}

/// A run that applies commits.
#[derive(Debug)]
pub struct ApplyRun {
    total: usize,
    reports: Vec<Json>,
    exit_code: i32,
    stopped: bool,
}

/// The exit code of a run that the user stopped.
pub const INTERRUPTED: i32 = 130;

/// Whether there is a commit to apply.
pub open spec fn apply_goes_on(s: ApplyView) -> bool {
    !s.stopped && s.reports.len() < s.total
}

/// What follows an event. The first commit that fails stops the run, and its code is the run's.
pub open spec fn apply_next(s: ApplyView, event: ApplyEvent) -> ApplyView {
    if !apply_goes_on(s) {
        s
    } else {
        match event {
            ApplyEvent::Finished { report, code } => ApplyView {
                reports: s.reports.push(report@),
                exit_code: code,
                stopped: code != 0,
                ..s
            },
            ApplyEvent::Interrupted => ApplyView { exit_code: INTERRUPTED, stopped: true, ..s },
        }
    }
}

impl ApplyRun {
    pub closed spec fn view(&self) -> ApplyView {
        ApplyView {
            total: self.total as nat,
            reports: views(self.reports@),
            exit_code: self.exit_code,
            stopped: self.stopped,
        }
    }

    /// A run before its first commit.
    pub fn start(total: usize) -> (r: ApplyRun)
        ensures
            r@ == (ApplyView {
                total: total as nat,
                reports: Seq::empty(),
                exit_code: 0,
                stopped: false,
            }),
    {
        let r = ApplyRun { total, reports: Vec::new(), exit_code: 0, stopped: false };
        assert(views(r.reports@) =~= Seq::<JsonView>::empty());
        r
    }

    /// The place of the commit to apply next.
    pub fn next_commit(&self) -> (r: Option<usize>)
        ensures
            r == if apply_goes_on(self@) {
                Some(self@.reports.len() as usize)
            } else {
                None
            },
    {
        assert(views(self.reports@).len() == self.reports@.len());
        if !self.stopped && self.reports.len() < self.total {
            Some(self.reports.len())
        } else {
            None
        }
    }

    /// Takes in what came of the commit.
    pub fn next(&mut self, event: ApplyEvent)
        ensures
            final(self)@ == apply_next(old(self)@, event),
    {
        assert(views(self.reports@).len() == self.reports@.len());
        if self.stopped || self.reports.len() >= self.total {
            return;
        }
        match event {
            ApplyEvent::Finished { report, code } => {
                let ghost before = views(self.reports@);
                self.reports.push(report);
                assert(views(self.reports@) =~= before.push(report@));
                self.exit_code = code;
                self.stopped = code != 0;
            },
            ApplyEvent::Interrupted => {
                self.exit_code = INTERRUPTED;
                self.stopped = true;
            },
        }
    }

    pub fn exit_code(&self) -> (r: i32)
        ensures
            r == self@.exit_code,
    {
        self.exit_code
    }

    /// The report of the run. That of a single commit is the commit's own; there is none if it
    /// was not applied.
    pub fn report(
        &self,
        is_range: bool,
        range: &str,
        applied: &Option<String>,
        message_id: &Option<String>,
    ) -> (r: Option<Json>)
        ensures
            match r {
                Some(report) => apply_report(
                    self@,
                    is_range,
                    range@,
                    opt_text(*applied),
                    opt_text(*message_id),
                ) == Some(report@),
                None => apply_report(
                    self@,
                    is_range,
                    range@,
                    opt_text(*applied),
                    opt_text(*message_id),
                ) is None,
            },
    {
        assert(views(self.reports@).len() == self.reports@.len());
        if !is_range {
            if self.reports.len() == 0 {
                None
            } else {
                Some(self.reports[0].clone())
            }
        } else {
            let mut report = Json::object().with("schema_version", Json::number(2)).with(
                "subcommand",
                Json::text("apply"),
            ).with("range", Json::text(range)).with("applied_range", Json::opt_text(applied)).with(
                "commits",
                Json::list(copy_list(&self.reports)),
            );
            if let Some(message_id) = message_id {
                report.set("message_id", Json::text(message_id.as_str()));
            }
            Some(report)
        }
    }
}

/// The report of a run.
pub open spec fn apply_report(
    s: ApplyView,
    is_range: bool,
    range: Seq<char>,
    applied: Option<Seq<char>>,
    message_id: Option<Seq<char>>,
) -> Option<JsonView> {
    if !is_range {
        if s.reports.len() == 0 {
            None
        } else {
            Some(s.reports[0])
        }
    } else {
        let report = JsonView::Object(
            Map::empty().insert("schema_version"@, number(2)).insert(
                "subcommand"@,
                JsonView::Text("apply"@),
            ).insert("range"@, JsonView::Text(range)).insert(
                "applied_range"@,
                opt_text_value(applied),
            ).insert("commits"@, JsonView::List(s.reports)),
        );
        Some(
            match message_id {
                Some(id) => with_field(report, "message_id"@, JsonView::Text(id)),
                None => report,
            },
        )
    }
}

/// The subject to report: the one that the work on the commit gave, or else the one that git
/// gives, trimmed, unless it is blank.
pub open spec fn subject_to_report(
    given: Option<Seq<char>>,
    from_git: Option<Seq<char>>,
) -> Option<Seq<char>> {
    match (given, from_git) {
        (Some(subject), _) => Some(subject),
        (None, Some(subject)) => if trim(subject).len() > 0 {
            Some(trim(subject))
        } else {
            None
        },
        (None, None) => None,
    }
}

pub fn apply_subject(given: Option<String>, from_git: &Option<String>) -> (r: Option<String>)
    ensures
        opt_text(r) == subject_to_report(opt_text(given), opt_text(*from_git)),
{
    match (given, from_git) {
        (Some(subject), _) => Some(subject),
        (None, Some(subject)) => {
            let chars = chars_of(subject.as_str());
            let trimmed = trim_chars(chars.as_slice());
            if trimmed.len() > 0 {
                Some(string_of(trimmed))
            } else {
                None
            }
        },
        (None, None) => None,
    }
}

/// What is printed before a commit of several.
pub fn apply_header(index: usize, total: usize, commit: &str) -> (r: String)
    requires
        index < total,
    ensures
        r@ == "\n"@ + series_tag((index + 1) as nat, total as nat) + " "@ + commit@,
{
    let mut r = copy_text("\n");
    push_text(&mut r, patch_series_tag(index + 1, total).as_str());
    push_text(&mut r, " ");
    push_text(&mut r, commit);
    r
}

// ---------------------------------------------------------------------------------------------
// Quoting for a shell
// ---------------------------------------------------------------------------------------------

/// A text inside single quotes: each single quote ends them, stands in double quotes, and begins
/// them again.
pub open spec fn quoted_inside(s: Seq<char>) -> Seq<char>
    decreases s.len(),
{
    if s.len() == 0 {
        Seq::empty()
    } else {
        quoted_inside(s.drop_last()) + if s.last() == '\'' {
            "'\"'\"'"@
        } else {
            seq![s.last()]
        }
    }
}

/// A path as one word for a shell.
pub open spec fn shell_quoted(path: Seq<char>) -> Seq<char> {
    "'"@ + quoted_inside(path) + "'"@
}

pub fn shell_quote_path(path: &str) -> (r: String)
    ensures
        r@ == shell_quoted(path@),
{
    let chars = chars_of(path);
    let mut inside = String::new();
    let mut i: usize = 0;
    assert(path@.take(0) =~= Seq::<char>::empty());
    while i < chars.len()
        invariant
            i <= chars@.len(),
            chars@ == path@,
            inside@ == quoted_inside(path@.take(i as int)),
        decreases chars@.len() - i,
    {
        let c = chars[i];
        proof {
            let next = path@.take(i + 1);
            assert(next.drop_last() =~= path@.take(i as int));
            assert(next.last() == c);
        }
        if c == '\'' {
            push_text(&mut inside, "'\"'\"'");
        } else {
            let ghost before = inside@;
            inside.push(c);
            assert(inside@ =~= before + seq![c]);
        }
        i += 1;
    }
    assert(path@.take(i as int) =~= path@);
    let mut r = copy_text("'");
    push_text(&mut r, inside.as_str());
    push_text(&mut r, "'");
    r
}

/// The hint to review what was applied.
pub open spec fn review_hint_text(repo: Seq<char>, applied: Seq<char>) -> Seq<char> {
    "Review with: boro --source "@ + shell_quoted(repo) + " review "@ + applied
}

pub fn review_hint(repo: &str, applied: &str) -> (r: String)
    ensures
        r@ == review_hint_text(repo@, applied@),
{
    let mut r = copy_text("Review with: boro --source ");
    push_text(&mut r, shell_quote_path(repo).as_str());
    push_text(&mut r, " review ");
    push_text(&mut r, applied);
    r
}

// ---------------------------------------------------------------------------------------------
// Laws
// ---------------------------------------------------------------------------------------------

/// How a shell reads a word: outside quotes, inside single ones, or inside double ones.
pub enum Quotes {
    Outside,
    Single,
    Double,
}

/// What a shell makes of a word of quoted parts, starting in the given quotes; nothing if the word
/// is not quoted throughout or does not end outside quotes. What a shell does with backslashes,
/// dollar signs and backquotes inside double quotes is left out, and so are words that have any.
pub open spec fn shell_reads(s: Seq<char>, quotes: Quotes) -> Option<Seq<char>>
    decreases s.len(),
{
    if s.len() == 0 {
        if quotes is Outside {
            Some(Seq::empty())
        } else {
            None
        }
    } else {
        let rest = s.skip(1);
        let c = s[0];
        match quotes {
            Quotes::Outside => if c == '\'' {
                shell_reads(rest, Quotes::Single)
            } else if c == '"' {
                shell_reads(rest, Quotes::Double)
            } else {
                None
            },
            Quotes::Single => if c == '\'' {
                shell_reads(rest, Quotes::Outside)
            } else {
                read_on(c, shell_reads(rest, Quotes::Single))
            },
            Quotes::Double => if c == '"' {
                shell_reads(rest, Quotes::Outside)
            } else if c == '\\' || c == '$' || c == '`' {
                None
            } else {
                read_on(c, shell_reads(rest, Quotes::Double))
            },
        }
    }
}

/// A character in front of what is read after it.
pub open spec fn read_on(c: char, rest: Option<Seq<char>>) -> Option<Seq<char>> {
    match rest {
        Some(rest) => Some(seq![c] + rest),
        None => None,
    }
}

/// A shell reads a quoted path as the path.
pub proof fn lemma_shell_reads_quoted(path: Seq<char>)
    ensures
        shell_reads(shell_quoted(path), Quotes::Outside) == Some(path),
{
    reveal_strlit("'");
    let tail = "'"@;
    let word = shell_quoted(path);
    assert(word.skip(1) =~= quoted_inside(path) + tail);
    assert(tail.skip(1) =~= Seq::<char>::empty());
    assert(shell_reads(tail, Quotes::Single) == Some(Seq::<char>::empty())) by {
        reveal_with_fuel(shell_reads, 2);
    }
    lemma_reads_inside(path, tail, Seq::empty());
    assert(path + Seq::empty() =~= path);
}

proof fn lemma_reads_inside(path: Seq<char>, tail: Seq<char>, rest: Seq<char>)
    requires
        shell_reads(tail, Quotes::Single) == Some(rest),
    ensures
        shell_reads(quoted_inside(path) + tail, Quotes::Single) == Some(path + rest),
    decreases path.len(),
{
    if path.len() == 0 {
        assert(quoted_inside(path) + tail =~= tail);
        assert(path + rest =~= rest);
    } else {
        let c = path.last();
        let before = path.drop_last();
        let here = if c == '\'' {
            "'\"'\"'"@
        } else {
            seq![c]
        };
        assert(quoted_inside(path) + tail =~= quoted_inside(before) + (here + tail));
        assert(shell_reads(here + tail, Quotes::Single) == Some(seq![c] + rest)) by {
            if c == '\'' {
                reveal_strlit("'\"'\"'");
                let t0 = here + tail;
                let t1 = t0.skip(1);
                let t2 = t1.skip(1);
                let t3 = t2.skip(1);
                let t4 = t3.skip(1);
                let t5 = t4.skip(1);
                assert(t5 =~= tail);
                assert(t0[0] == '\'' && t1[0] == '"' && t2[0] == '\'' && t3[0] == '"' && t4[0]
                    == '\'');
                assert(shell_reads(t4, Quotes::Outside) == Some(rest));
                assert(shell_reads(t3, Quotes::Double) == Some(rest));
                assert(shell_reads(t2, Quotes::Double) == Some(seq![c] + rest));
                assert(shell_reads(t1, Quotes::Outside) == Some(seq![c] + rest));
            } else {
                assert((here + tail).skip(1) =~= tail);
            }
        }
        lemma_reads_inside(before, here + tail, seq![c] + rest);
        assert(before + (seq![c] + rest) =~= path + rest);
    }
}

/// The range that a run reports can be given to a run again: it is read as the range between the
/// same two commits.
pub proof fn lemma_applied_range_can_be_applied(base: Seq<char>, tip: Seq<char>)
    requires
        base.len() > 0,
        tip.len() > 0,
        is_commit_name(base),
        is_commit_name(tip),
    ensures
        apply_range(range_text(base, tip)) == (RangeView::Range { base, tip }),
{
    reveal_strlit("..");
    let range = range_text(base, tip);
    lemma_finds_dots(base, tip);
    assert(range.take(base.len() as int) =~= base);
    assert(range.skip(base.len() as int + 2) =~= tip);
    lemma_no_dots(tip);
}

proof fn lemma_no_dots(s: Seq<char>)
    requires
        is_commit_name(s),
    ensures
        find_text(s, ".."@) is None,
    decreases s.len(),
{
    reveal_strlit("..");
    if s.len() > 0 {
        assert(is_hex_digit(s[0]));
        if has_prefix(s, ".."@) {
            assert(s[0] == s.take(2)[0]);
            assert(s[0] == '.');
        }
        assert forall|i: int| 0 <= i < s.skip(1).len() implies is_hex_digit(
            #[trigger] s.skip(1)[i],
        ) by {
            assert(is_hex_digit(s[i + 1]));
        }
        lemma_no_dots(s.skip(1));
    }
}

proof fn lemma_finds_dots(base: Seq<char>, tip: Seq<char>)
    requires
        is_commit_name(base),
    ensures
        find_text(range_text(base, tip), ".."@) == Some(base.len()),
    decreases base.len(),
{
    reveal_strlit("..");
    let range = range_text(base, tip);
    if base.len() == 0 {
        assert(range.take(2) =~= ".."@);
    } else {
        assert(is_hex_digit(base[0]));
        assert(range[0] == base[0]);
        if has_prefix(range, ".."@) {
            assert(range[0] == range.take(2)[0]);
        }
        let rest = base.skip(1);
        assert forall|i: int| 0 <= i < rest.len() implies is_hex_digit(#[trigger] rest[i]) by {
            assert(is_hex_digit(base[i + 1]));
        }
        assert(range.skip(1) =~= range_text(rest, tip));
        lemma_finds_dots(rest, tip);
    }
}

/// The run after a sequence of events.
pub open spec fn apply_after(total: nat, events: Seq<ApplyEvent>) -> ApplyView
    decreases events.len(),
{
    if events.len() == 0 {
        ApplyView { total, reports: Seq::empty(), exit_code: 0, stopped: false }
    } else {
        apply_next(apply_after(total, events.drop_last()), events.last())
    }
}

/// A run ends with code zero exactly if nothing stopped it; it stops at the first commit that
/// fails and at an interruption, and nothing is applied after that.
pub proof fn lemma_apply_stops_at_failure(total: nat, events: Seq<ApplyEvent>, event: ApplyEvent)
    ensures
        ({
            let s = apply_after(total, events);
            &&& s.exit_code == 0 <==> !s.stopped
            &&& s.total == total
            &&& s.reports.len() <= total
            &&& s.stopped ==> apply_next(s, event) == s
            &&& apply_goes_on(s) ==> (event matches ApplyEvent::Finished { code, .. } ==> {
                &&& apply_next(s, event).stopped <==> code != 0
                &&& apply_next(s, event).exit_code == code
            })
            &&& apply_goes_on(s) && event is Interrupted ==> apply_next(s, event).exit_code
                == INTERRUPTED
        }),
    decreases events.len(),
{
    if events.len() > 0 {
        lemma_apply_stops_at_failure(total, events.drop_last(), events.last());
    }
}

} // verus!
