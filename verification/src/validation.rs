//! The validation of a run's findings.
//!
//! The findings that the stages added, and what specialists hold against findings of the fast
//! pass, go to a validating model in batches. Its replies decide which additions stay. A finding
//! of the fast pass goes only if the model confirms a challenge exactly as it was proposed; every
//! failure leaves it in place.

use vstd::prelude::*;
use crate::anchors::{anchored_report, drop_unanchored_locations};
use crate::challenges::{
    apply_confirmed_fast_false_positives, copies_finding, disproves, is_disproved,
    lemma_baseline_stays_without_exact_challenge, lemma_fixes_stay,
    lemma_only_disproved_findings_go, lemma_unstruck_members, list_items, reports_fix,
    undisputed, unstruck, without_unverified_sensitive_findings,
};
use crate::commit::{field_or_empty, get_or_empty};
use crate::diff_index::{DiffIndex, line_numbers_fit, shown_lines};
use crate::findings::{lemma_merge_keeps_base, merge_novel_findings, merged};
use crate::json::{
    Json, JsonMap, JsonView, as_list, copy_list, empty_object, field, list_field, list_or_empty,
    takes_members, text_field, text_or_empty, views, with_field,
};
use crate::options::{ValidationMode, mode_name};
use crate::text::{
    contains_text, copy_strings, copy_text, decimal, is_empty, opt_text, push_decimal,
    push_text, sha12, short12, texts,
};
use crate::usage::{TokenUsage, call_step_value, usage_step_json};

verus! {

// ---------------------------------------------------------------------------------------------
// What is validated
// ---------------------------------------------------------------------------------------------

/// What is validated of one commit.
#[derive(Debug, Clone)]
pub struct ValidationPayload {
    /// The commit's name, shortened.
    pub sha: String,
    pub full_sha: String,
    pub subject: String,
    pub reference_context: String,
    pub diff: String,
    pub baseline_findings: Json,
    pub baseline_challenges: Json,
    pub findings: Json,
}

#[verifier::ext_equal]
pub struct PayloadView {
    pub sha: Seq<char>,
    pub full_sha: Seq<char>,
    pub subject: Seq<char>,
    pub reference_context: Seq<char>,
    pub diff: Seq<char>,
    pub baseline_findings: JsonView,
    pub baseline_challenges: JsonView,
    pub findings: JsonView,
}

impl ValidationPayload {
    pub open spec fn view(&self) -> PayloadView {
        PayloadView {
            sha: self.sha@,
            full_sha: self.full_sha@,
            subject: self.subject@,
            reference_context: self.reference_context@,
            diff: self.diff@,
            baseline_findings: self.baseline_findings@,
            baseline_challenges: self.baseline_challenges@,
            findings: self.findings@,
        }
    }
}

pub open spec fn payload_views(payloads: Seq<ValidationPayload>) -> Seq<PayloadView> {
    payloads.map_values(|p: ValidationPayload| p@)
}

/// What is validated of a commit. One without a name, or with neither additions nor challenges,
/// needs no validation.
pub open spec fn payload_of(commit: JsonView) -> Option<PayloadView> {
    let findings = list_or_empty(commit, "_additional_findings"@);
    let challenges = list_or_empty(commit, "_baseline_challenges"@);
    let sha = text_or_empty(commit, "sha"@);
    if (findings.len() == 0 && challenges.len() == 0) || sha.len() == 0 {
        None
    } else {
        Some(
            PayloadView {
                sha: short12(sha),
                full_sha: sha,
                subject: text_or_empty(commit, "subject"@),
                reference_context: text_or_empty(commit, "_validation_context"@),
                diff: text_or_empty(commit, "patch"@),
                baseline_findings: field_or_empty(commit, "findings"@),
                baseline_challenges: JsonView::List(challenges),
                findings: JsonView::List(findings),
            },
        )
    }
}

/// What is validated of a sequence of commits, in their order.
pub open spec fn payloads_of(commits: Seq<JsonView>) -> Seq<PayloadView>
    decreases commits.len(),
{
    if commits.len() == 0 {
        Seq::empty()
    } else {
        let before = payloads_of(commits.drop_last());
        match payload_of(commits.last()) {
            Some(payload) => before.push(payload),
            None => before,
        }
    }
}

fn make_payload(commit: &Json) -> (r: Option<ValidationPayload>)
    ensures
        match r {
            Some(payload) => payload_of(commit@) == Some(payload@),
            None => payload_of(commit@) is None,
        },
{
    let findings = commit.list_or_empty("_additional_findings");
    let challenges = commit.list_or_empty("_baseline_challenges");
    assert(views(findings@).len() == findings@.len());
    assert(views(challenges@).len() == challenges@.len());
    let sha = commit.str_or_empty("sha");
    if (findings.len() == 0 && challenges.len() == 0) || is_empty(sha.as_str()) {
        return None;
    }
    Some(
        ValidationPayload {
            sha: sha12(sha.as_str()),
            full_sha: sha,
            subject: commit.str_or_empty("subject"),
            reference_context: commit.str_or_empty("_validation_context"),
            diff: commit.str_or_empty("patch"),
            baseline_findings: get_or_empty(commit, "findings"),
            baseline_challenges: Json::list(challenges),
            findings: Json::list(findings),
        },
    )
}

/// What is validated of a run.
pub fn collect_payloads(out: &Json) -> (r: Vec<ValidationPayload>)
    ensures
        payload_views(r@) == payloads_of(list_or_empty(out@, "commits"@)),
{
    let commits = out.list_or_empty("commits");
    let mut payloads: Vec<ValidationPayload> = Vec::new();
    let mut i: usize = 0;
    assert(views(commits@).take(0) =~= Seq::<JsonView>::empty());
    assert(payload_views(payloads@) =~= Seq::<PayloadView>::empty());
    while i < commits.len()
        invariant
            i <= commits@.len(),
            payload_views(payloads@) == payloads_of(views(commits@).take(i as int)),
        decreases commits@.len() - i,
    {
        proof {
            let next = views(commits@).take(i + 1);
            assert(next.drop_last() =~= views(commits@).take(i as int));
            assert(next.last() == commits@[i as int]@);
        }
        if let Some(payload) = make_payload(&commits[i]) {
            let ghost before = payload_views(payloads@);
            payloads.push(payload);
            assert(payload_views(payloads@) =~= before.push(payload@));
        }
        i += 1;
    }
    assert(views(commits@).take(i as int) =~= views(commits@));
    payloads
}

// ---------------------------------------------------------------------------------------------
// The commits of a report
// ---------------------------------------------------------------------------------------------

/// A run's report with its commits replaced; where it holds no list of them, a missing member
/// becomes null.
pub open spec fn with_commits(out: JsonView, commits: Seq<JsonView>) -> JsonView {
    match list_field(out, "commits"@) {
        Some(_) => with_field(out, "commits"@, JsonView::List(commits)),
        None => match field(out, "commits"@) {
            Some(_) => out,
            None => with_field(out, "commits"@, JsonView::Null),
        },
    }
}

/// Replaces the commits of a run's report.
pub fn set_commits(out: &mut Json, commits: Vec<Json>)
    ensures
        final(out)@ == with_commits(old(out)@, views(commits@)),
{
    if out.get_list("commits").is_some() {
        out.set("commits", Json::list(commits));
    } else if out.get("commits").is_none() {
        out.set("commits", Json::Null);
    }
}

/// A commit whose findings count as validated.
pub open spec fn taken_over(commit: JsonView) -> JsonView {
    with_field(commit, "validated_findings"@, field_or_empty(commit, "findings"@))
}

/// A run's report with the name of its validation mode.
pub open spec fn with_mode(out: JsonView, mode: ValidationMode) -> JsonView {
    with_field(out, "validation_mode"@, JsonView::Text(mode_name(mode)))
}

/// Records that there was nothing to validate: the findings of each commit count as validated.
pub fn skip_validation(out: &mut Json, mode: ValidationMode)
    requires
        takes_members(old(out)@),
        forall|i: int|
            0 <= i < list_or_empty(old(out)@, "commits"@).len() ==> takes_members(
                #[trigger] list_or_empty(old(out)@, "commits"@)[i],
            ),
    ensures
        final(out)@ == with_mode(
            with_commits(
                old(out)@,
                list_or_empty(old(out)@, "commits"@).map_values(|c: JsonView| taken_over(c)),
            ),
            mode,
        ),
{
    let commits = out.list_or_empty("commits");
    let mut taken: Vec<Json> = Vec::new();
    let mut i: usize = 0;
    while i < commits.len()
        invariant
            i <= commits@.len(),
            taken@.len() == i,
            forall|k: int| 0 <= k < i ==> (#[trigger] taken@[k])@ == taken_over(commits@[k]@),
        decreases commits@.len() - i,
    {
        let findings = get_or_empty(&commits[i], "findings");
        taken.push(commits[i].clone().with("validated_findings", findings));
        i += 1;
    }
    assert(views(taken@) =~= views(commits@).map_values(|c: JsonView| taken_over(c)));
    set_commits(out, taken);
    out.set("validation_mode", Json::text(mode.label()));
}

// ---------------------------------------------------------------------------------------------
// The replies
// ---------------------------------------------------------------------------------------------

/// What the validating model has replied so far.
#[verifier::ext_equal]
pub struct ValidationView {
    /// The reply for each commit, by the name that the model gave.
    pub entries: Map<Seq<char>, JsonView>,
    /// The commits whose replies lacked the checks in the repository that they had to show.
    pub failed: Seq<Seq<char>>,
}

/// What the validating model has replied so far.
#[derive(Debug)]
pub struct Validation {
    entries: JsonMap,
    failed: Vec<String>,
}

/// The replies with those of a batch put in. Of two for one commit the later one counts, and one
/// without a name counts for nothing.
pub open spec fn with_entries(
    entries: Map<Seq<char>, JsonView>,
    batch: Seq<JsonView>,
) -> Map<Seq<char>, JsonView>
    decreases batch.len(),
{
    if batch.len() == 0 {
        entries
    } else {
        let before = with_entries(entries, batch.drop_last());
        match text_field(batch.last(), "sha"@) {
            Some(sha) => before.insert(sha, batch.last()),
            None => before,
        }
    }
}

/// What has been replied after a batch. A batch without a usable reply leaves its commits as they
/// are, but for those whose sensitive findings had to be checked and were not.
pub open spec fn batch_replied(
    s: ValidationView,
    parsed: Option<Json>,
    verification_failed: bool,
    shas: Seq<Seq<char>>,
) -> ValidationView {
    match parsed {
        Some(parsed) => ValidationView {
            entries: with_entries(s.entries, list_or_empty(parsed@, "commits"@)),
            ..s
        },
        None => if verification_failed {
            ValidationView { failed: s.failed + shas, ..s }
        } else {
            s
        },
    }
}

/// The name of a batch's step.
pub open spec fn batch_name(batch: nat, batches: nat) -> Seq<char> {
    "findings-"@ + decimal(batch) + "/"@ + decimal(batches)
}

/// The usage of a batch, as it is recorded.
pub open spec fn batch_step(
    batch: nat,
    batches: nat,
    usage: TokenUsage,
    wall_ms: u64,
    error: Option<Seq<char>>,
) -> JsonView {
    call_step_value(batch_name(batch, batches), usage, wall_ms, error)
}

/// The usage of a batch, to be recorded. Batches are counted from one.
pub fn validation_step(
    batch: usize,
    batches: usize,
    usage: TokenUsage,
    wall_ms: u64,
    error: &Option<String>,
) -> (r: Json)
    ensures
        r@ == batch_step(batch as nat, batches as nat, usage, wall_ms, opt_text(*error)),
{
    let mut name = copy_text("findings-");
    push_decimal(&mut name, batch as u64);
    push_text(&mut name, "/");
    push_decimal(&mut name, batches as u64);
    usage_step_json(name.as_str(), usage, wall_ms, error)
}

/// What the progress display shows while a batch is validated.
pub fn batch_label(mode: ValidationMode, batch: usize, batches: usize) -> (r: String)
    ensures
        r@ == "[validation:"@ + mode_name(mode) + "] Validating findings batch "@ + decimal(
            batch as nat,
        ) + "/"@ + decimal(batches as nat),
{
    let mut r = copy_text("[validation:");
    push_text(&mut r, mode.label());
    push_text(&mut r, "] Validating findings batch ");
    push_decimal(&mut r, batch as u64);
    push_text(&mut r, "/");
    push_decimal(&mut r, batches as u64);
    r
}

impl Validation {
    pub closed spec fn view(&self) -> ValidationView {
        ValidationView { entries: self.entries@, failed: texts(self.failed@) }
    }

    /// Before any reply.
    pub fn new() -> (r: Validation)
        ensures
            r@ == (ValidationView { entries: Map::empty(), failed: Seq::empty() }),
    {
        let r = Validation { entries: JsonMap::new(), failed: Vec::new() };
        assert(r@ =~= (ValidationView { entries: Map::empty(), failed: Seq::empty() }));
        r
    }

    /// Takes in the reply for a batch; `shas` are the short names of its commits.
    pub fn batch_replied(
        &mut self,
        parsed: &Option<Json>,
        verification_failed: bool,
        shas: &Vec<String>,
    )
        ensures
            final(self)@ == batch_replied(old(self)@, *parsed, verification_failed, texts(shas@)),
    {
        match parsed {
            Some(parsed) => {
                let batch = parsed.list_or_empty("commits");
                let mut i: usize = 0;
                assert(views(batch@).take(0) =~= Seq::<JsonView>::empty());
                while i < batch.len()
                    invariant
                        i <= batch@.len(),
                        self.failed == old(self).failed,
                        self.entries@ == with_entries(
                            old(self).entries@,
                            views(batch@).take(i as int),
                        ),
                    decreases batch@.len() - i,
                {
                    proof {
                        let next = views(batch@).take(i + 1);
                        assert(next.drop_last() =~= views(batch@).take(i as int));
                        assert(next.last() == batch@[i as int]@);
                    }
                    if let Some(sha) = batch[i].get_str("sha") {
                        self.entries.set(sha, batch[i].clone());
                    }
                    i += 1;
                }
                assert(views(batch@).take(i as int) =~= views(batch@));
            },
            None => {
                if verification_failed {
                    let ghost before = self.failed@;
                    let mut more = copy_strings(shas);
                    self.failed.append(&mut more);
                    assert(texts(before + shas@) =~= texts(before) + texts(shas@));
                }
            },
        }
    }
}

// ---------------------------------------------------------------------------------------------
// What stays
// ---------------------------------------------------------------------------------------------

/// The reply for a commit, under its short name or else under its full one.
pub open spec fn entry_for(s: ValidationView, sha: Seq<char>) -> Option<JsonView> {
    if s.entries.contains_key(short12(sha)) {
        Some(s.entries[short12(sha)])
    } else if s.entries.contains_key(sha) {
        Some(s.entries[sha])
    } else {
        None
    }
}

/// The findings of a reply. Their locations are checked against the commit's patch once more.
pub open spec fn replied_findings(entry: JsonView, patch: Seq<char>) -> Seq<JsonView> {
    let report = with_field(empty_object(), "findings"@, field_or_empty(entry, "findings"@));
    list_or_empty(
        if patch.len() > 0 {
            anchored_report(report, shown_lines(patch))
        } else {
            report
        },
        "findings"@,
    )
}

/// The additions to a commit's findings that stay: those that the reply holds; without a reply
/// all of them, but for sensitive ones that had to be checked in the repository and were not.
pub open spec fn kept_additions(
    commit: JsonView,
    s: ValidationView,
    sensitive: Seq<bool>,
) -> Seq<JsonView> {
    let sha = text_or_empty(commit, "sha"@);
    let raw = list_or_empty(commit, "_additional_findings"@);
    match entry_for(s, sha) {
        Some(entry) => replied_findings(entry, text_or_empty(commit, "patch"@)),
        None => if s.failed.contains(short12(sha)) {
            unstruck(raw, |i: int| sensitive[i], raw.len() as int)
        } else {
            raw
        },
    }
}

/// The challenges that the reply for a commit confirms; without tools none counts.
pub open spec fn confirmed_challenges(
    commit: JsonView,
    s: ValidationView,
    no_tools: bool,
) -> Seq<JsonView> {
    match entry_for(s, text_or_empty(commit, "sha"@)) {
        Some(entry) if !no_tools => list_or_empty(entry, "confirmed_false_positives"@),
        _ => Seq::empty(),
    }
}

/// The findings of a commit without those that confirmed challenges disprove.
pub open spec fn kept_baseline(commit: JsonView, s: ValidationView, no_tools: bool) -> JsonView {
    match field(commit, "findings"@) {
        Some(JsonView::List(findings)) => JsonView::List(
            undisputed(
                findings,
                list_or_empty(commit, "_baseline_challenges"@),
                confirmed_challenges(commit, s, no_tools),
            ),
        ),
        Some(other) => other,
        None => JsonView::Null,
    }
}

/// A commit after the validation. One without a name is left alone.
pub open spec fn validated_commit(
    commit: JsonView,
    s: ValidationView,
    sensitive: Seq<bool>,
    no_tools: bool,
) -> JsonView {
    if text_or_empty(commit, "sha"@).len() == 0 {
        commit
    } else {
        let baseline = kept_baseline(commit, s, no_tools);
        with_field(
            with_field(commit, "findings"@, baseline),
            "validated_findings"@,
            JsonView::List(merged(list_items(baseline), kept_additions(commit, s, sensitive))),
        )
    }
}

impl Validation {
    fn find_entry(&self, sha: &str) -> (r: Option<&Json>)
        ensures
            match r {
                Some(entry) => entry_for(self@, sha@) == Some(entry@),
                None => entry_for(self@, sha@) is None,
            },
    {
        let short = sha12(sha);
        match self.entries.get(short.as_str()) {
            Some(entry) => Some(entry),
            None => self.entries.get(sha),
        }
    }

    fn validate_commit(&self, commit: &Json, sensitive: &Vec<bool>, no_tools: bool) -> (r: Json)
        requires
            patch_fits(commit@, self@),
            sensitive@.len() == list_or_empty(commit@, "_additional_findings"@).len(),
        ensures
            r@ == validated_commit(commit@, self@, sensitive@, no_tools),
    {
        let sha = commit.str_or_empty("sha");
        if is_empty(sha.as_str()) {
            return commit.clone();
        }
        let entry = self.find_entry(sha.as_str());
        let additions: Vec<Json> = match entry {
            Some(entry) => {
                let mut report = Json::object().with("findings", get_or_empty(entry, "findings"));
                let patch = commit.str_or_empty("patch");
                if !is_empty(patch.as_str()) {
                    let index = DiffIndex::from_unified_diff(patch.as_str());
                    drop_unanchored_locations(&mut report, &index);
                }
                report.list_or_empty("findings")
            },
            None => {
                let raw = commit.list_or_empty("_additional_findings");
                if contains_text(self.failed.as_slice(), sha12(sha.as_str()).as_str()) {
                    let (retained, withheld): (
                        Vec<Json>,
                        usize,
                    ) = without_unverified_sensitive_findings(&Json::list(raw), sensitive);
                    retained
                } else {
                    raw
                }
            },
        };
        assert(views(additions@) == kept_additions(commit@, self@, sensitive@));
        let proposed = commit.list_or_empty("_baseline_challenges");
        let confirmed: Vec<Json> = match entry {
            Some(entry) => if no_tools {
                Vec::new()
            } else {
                entry.list_or_empty("confirmed_false_positives")
            },
            None => Vec::new(),
        };
        assert(views(confirmed@) =~= confirmed_challenges(commit@, self@, no_tools));
        let mut baseline = match commit.get("findings") {
            Some(findings) => findings.clone(),
            None => Json::Null,
        };
        let removed: usize = apply_confirmed_fast_false_positives(
            &mut baseline,
            &proposed,
            &confirmed,
        );
        assert(baseline@ == kept_baseline(commit@, self@, no_tools));
        let kept = match baseline.as_list() {
            Some(items) => copy_list(items),
            None => Vec::new(),
        };
        assert(views(kept@) =~= list_items(baseline@));
        let all = merge_novel_findings(&kept, &additions);
        commit.clone().with("findings", baseline).with("validated_findings", Json::list(all))
    }

    /// Records in a run's report what stays. `sensitive` says of each addition to each commit
    /// whether it must be checked in the repository.
    pub fn conclude(&self, out: &mut Json, sensitive: &Vec<Vec<bool>>, no_tools: bool, mode: ValidationMode)
        requires
            takes_members(old(out)@),
            patches_fit(list_or_empty(old(out)@, "commits"@), self@),
            flags_fit(list_or_empty(old(out)@, "commits"@), sensitive@),
        ensures
            final(out)@ == validated_run(old(out)@, self@, sensitive@, no_tools, mode),
    {
        let commits = out.list_or_empty("commits");
        let mut validated: Vec<Json> = Vec::new();
        let mut i: usize = 0;
        while i < commits.len()
            invariant
                i <= commits@.len(),
                validated@.len() == i,
                patches_fit(views(commits@), self@),
                flags_fit(views(commits@), sensitive@),
                forall|k: int|
                    0 <= k < i ==> (#[trigger] validated@[k])@ == validated_commit(
                        commits@[k]@,
                        self@,
                        sensitive@[k]@,
                        no_tools,
                    ),
            decreases commits@.len() - i,
        {
            assert(views(commits@)[i as int] == commits@[i as int]@);
            let next = self.validate_commit(&commits[i], &sensitive[i], no_tools);
            validated.push(next);
            i += 1;
        }
        assert(views(validated@) =~= validated_commits(
            views(commits@),
            self@,
            sensitive@,
            no_tools,
        ));
        set_commits(out, validated);
        out.set("validation_mode", Json::text(mode.label()));
    }
}

/// Whether the patch of a commit can be indexed, where there is a reply to hold against it.
pub open spec fn patch_fits(commit: JsonView, s: ValidationView) -> bool {
    entry_for(s, text_or_empty(commit, "sha"@)) is Some && text_or_empty(commit, "sha"@).len() > 0
        ==> line_numbers_fit(text_or_empty(commit, "patch"@))
}

/// Whether the patches of the commits that got a reply can be indexed.
pub open spec fn patches_fit(commits: Seq<JsonView>, s: ValidationView) -> bool {
    forall|i: int| 0 <= i < commits.len() ==> patch_fits(#[trigger] commits[i], s)
}

/// Whether there is a flag for each addition to each commit.
pub open spec fn flags_fit(commits: Seq<JsonView>, sensitive: Seq<Vec<bool>>) -> bool {
    &&& sensitive.len() == commits.len()
    &&& forall|i: int|
        0 <= i < commits.len() ==> sensitive[i]@.len() == list_or_empty(
            #[trigger] commits[i],
            "_additional_findings"@,
        ).len()
}

impl Validation {
    /// Whether the patches of those of a run's commits that got a reply can be indexed.
    pub fn can_conclude(&self, out: &Json) -> (r: bool)
        ensures
            r == patches_fit(list_or_empty(out@, "commits"@), self@),
    {
        let commits = out.list_or_empty("commits");
        let mut i: usize = 0;
        while i < commits.len()
            invariant
                i <= commits@.len(),
                views(commits@) == list_or_empty(out@, "commits"@),
                forall|k: int| 0 <= k < i ==> patch_fits(#[trigger] views(commits@)[k], self@),
            decreases commits@.len() - i,
        {
            assert(views(commits@)[i as int] == commits@[i as int]@);
            let sha = commits[i].str_or_empty("sha");
            let patch = commits[i].str_or_empty("patch");
            if !is_empty(sha.as_str()) && self.find_entry(sha.as_str()).is_some()
                && !DiffIndex::can_index(patch.as_str()) {
                assert(!patches_fit(views(commits@), self@));
                return false;
            }
            i += 1;
        }
        true
    }
}

/// The commits of a run after the validation.
pub open spec fn validated_commits(
    commits: Seq<JsonView>,
    s: ValidationView,
    sensitive: Seq<Vec<bool>>,
    no_tools: bool,
) -> Seq<JsonView> {
    Seq::new(
        commits.len(),
        |i: int| validated_commit(commits[i], s, sensitive[i]@, no_tools),
    )
}

/// A run's report after the validation.
pub open spec fn validated_run(
    out: JsonView,
    s: ValidationView,
    sensitive: Seq<Vec<bool>>,
    no_tools: bool,
    mode: ValidationMode,
) -> JsonView {
    with_mode(
        with_commits(
            out,
            validated_commits(list_or_empty(out, "commits"@), s, sensitive, no_tools),
        ),
        mode,
    )
}

// ---------------------------------------------------------------------------------------------
// Laws
// ---------------------------------------------------------------------------------------------

/// Every failure leaves the findings of a commit in place: without a reply for the commit, or
/// without tools, none of them is removed.
pub proof fn lemma_failure_keeps_baseline(commit: JsonView, s: ValidationView, no_tools: bool)
    requires
        no_tools || entry_for(s, text_or_empty(commit, "sha"@)) is None,
    ensures
        field(commit, "findings"@) matches Some(findings) ==> kept_baseline(commit, s, no_tools)
            == findings,
{
    if let Some(JsonView::List(findings)) = field(commit, "findings"@) {
        lemma_baseline_stays_without_exact_challenge(
            findings,
            list_or_empty(commit, "_baseline_challenges"@),
            Seq::empty(),
        );
    }
}

/// A batch that gets no reply takes nothing away: its commits keep their additions, unless the
/// checks in the repository were missing.
pub proof fn lemma_failed_batch_keeps_additions(commit: JsonView, s: ValidationView, sensitive: Seq<bool>)
    requires
        entry_for(s, text_or_empty(commit, "sha"@)) is None,
        !s.failed.contains(short12(text_or_empty(commit, "sha"@))),
    ensures
        kept_additions(commit, s, sensitive) == list_or_empty(commit, "_additional_findings"@),
{
}

/// Where the checks in the repository were missing, exactly the findings that are not sensitive
/// stay.
pub proof fn lemma_unchecked_sensitive_findings_go(
    commit: JsonView,
    s: ValidationView,
    sensitive: Seq<bool>,
)
    requires
        entry_for(s, text_or_empty(commit, "sha"@)) is None,
        s.failed.contains(short12(text_or_empty(commit, "sha"@))),
        sensitive.len() == list_or_empty(commit, "_additional_findings"@).len(),
    ensures
        ({
            let raw = list_or_empty(commit, "_additional_findings"@);
            let kept = kept_additions(commit, s, sensitive);
            &&& forall|i: int|
                0 <= i < raw.len() && !sensitive[i] ==> kept.contains(#[trigger] raw[i])
            &&& forall|k: int|
                0 <= k < kept.len() ==> exists|i: int|
                    0 <= i < raw.len() && !sensitive[i] && raw[i] == #[trigger] kept[k]
        }),
{
    let raw = list_or_empty(commit, "_additional_findings"@);
    let struck = |i: int| sensitive[i];
    lemma_unstruck_members(raw, struck, raw.len() as int);
    let kept = kept_additions(commit, s, sensitive);
    assert forall|i: int| 0 <= i < raw.len() && !sensitive[i] implies kept.contains(
        #[trigger] raw[i],
    ) by {
        assert(!struck(i));
    }
    assert forall|k: int| 0 <= k < kept.len() implies exists|i: int|
        0 <= i < raw.len() && !sensitive[i] && raw[i] == #[trigger] kept[k] by {
        let i = choose|i: int| 0 <= i < raw.len() && !struck(i) && raw[i] == kept[k];
        assert(!sensitive[i] && raw[i] == kept[k]);
    }
}

/// The validated findings of a commit begin with those of its findings that were not removed, and
/// the validation touches nothing else of the commit.
pub proof fn lemma_validated_findings_begin_with_baseline(
    commit: JsonView,
    s: ValidationView,
    sensitive: Seq<bool>,
    no_tools: bool,
    name: Seq<char>,
)
    requires
        text_or_empty(commit, "sha"@).len() > 0,
    ensures
        ({
            let after = validated_commit(commit, s, sensitive, no_tools);
            let baseline = list_or_empty(after, "findings"@);
            let validated = list_or_empty(after, "validated_findings"@);
            &&& baseline.len() <= validated.len()
            &&& validated.take(baseline.len() as int) == baseline
            &&& name != "findings"@ && name != "validated_findings"@ ==> field(after, name)
                == field(commit, name)
        }),
{
    reveal_strlit("findings");
    reveal_strlit("validated_findings");
    assert("findings"@.len() == 8);
    assert("validated_findings"@.len() == 18);
    let baseline = kept_baseline(commit, s, no_tools);
    lemma_merge_keeps_base(
        list_items(baseline),
        kept_additions(commit, s, sensitive),
    );
    let after = validated_commit(commit, s, sensitive, no_tools);
    assert(list_or_empty(after, "findings"@) =~= list_items(baseline));
}

/// The fixes that upstream has stay among the findings of a commit, whatever the reply confirms.
pub proof fn lemma_validation_keeps_fixes(
    commit: JsonView,
    s: ValidationView,
    no_tools: bool,
    findings: Seq<JsonView>,
)
    requires
        field(commit, "findings"@) == Some(JsonView::List(findings)),
    ensures
        forall|i: int|
            0 <= i < findings.len() && reports_fix(#[trigger] findings[i]) ==> list_items(
                kept_baseline(commit, s, no_tools),
            ).contains(findings[i]),
{
    lemma_fixes_stay(
        findings,
        list_or_empty(commit, "_baseline_challenges"@),
        confirmed_challenges(commit, s, no_tools),
    );
}

/// A finding of the fast pass is removed only if the reply for its commit confirms a challenge
/// that a specialist proposed word for word.
pub proof fn lemma_removal_needs_confirmed_proposal(
    commit: JsonView,
    s: ValidationView,
    no_tools: bool,
    findings: Seq<JsonView>,
    index: int,
)
    requires
        field(commit, "findings"@) == Some(JsonView::List(findings)),
        0 <= index < findings.len(),
        !list_items(kept_baseline(commit, s, no_tools)).contains(findings[index]),
    ensures
        !no_tools,
        entry_for(s, text_or_empty(commit, "sha"@)) matches Some(entry) && exists|j: int|
            0 <= j < list_or_empty(entry, "confirmed_false_positives"@).len() && {
                let challenge = #[trigger] list_or_empty(entry, "confirmed_false_positives"@)[j];
                &&& list_or_empty(commit, "_baseline_challenges"@).contains(challenge)
                &&& copies_finding(challenge, findings[index])
            },
{
    let proposed = list_or_empty(commit, "_baseline_challenges"@);
    let confirmed = confirmed_challenges(commit, s, no_tools);
    lemma_only_disproved_findings_go(findings, proposed, confirmed);
    assert(is_disproved(findings, proposed, confirmed, index));
    let j = choose|j: int|
        0 <= j < confirmed.len() && disproves(
            #[trigger] confirmed[j],
            proposed,
            findings,
            index,
        );
    assert(confirmed[j] == confirmed[j]);
}

} // verus!
