//! Taking findings back: challenges to the findings of the fast pass, and findings that were not
//! held against the repository although they had to be.

use vstd::prelude::*;
use crate::json::{
    Json, JsonView, as_list, contains_value, copy_list, field, same_option, text_field, views,
};
use crate::text;

verus! {

// ---------------------------------------------------------------------------------------------
// Challenges
// ---------------------------------------------------------------------------------------------

/// The name by which the finding at a place of the baseline is challenged.
pub open spec fn baseline_id(index: nat) -> Seq<char> {
    "fast-"@ + text::decimal(index)
}

/// The place that a name stands for, by its exact spelling only.
pub open spec fn named_index(id: Seq<char>) -> Option<nat> {
    match text::after_prefix(id, "fast-"@) {
        Some(rest) => match text::parse_unsigned(rest, usize::MAX as nat) {
            Some(index) => if id == baseline_id(index) {
                Some(index)
            } else {
                None
            },
            None => None,
        },
        None => None,
    }
}

/// Whether a challenge copies the finding in full, and its problem as the claim to disprove.
pub open spec fn copies_finding(challenge: JsonView, finding: JsonView) -> bool {
    &&& text_field(finding, "problem"@) is Some
    &&& field(challenge, "finding"@) == Some(finding)
    &&& field(challenge, "proof"@) matches Some(proof) && text_field(proof, "finding_claim"@)
        == text_field(finding, "problem"@)
}

/// Whether a finding reports a fix that upstream has. Such findings do not come from a model and
/// cannot be challenged.
pub open spec fn reports_fix(finding: JsonView) -> bool {
    text_field(finding, "source"@) == Some("upstream-fixes"@)
}

/// Whether a confirmed challenge disproves the finding at a place of the baseline: it was proposed
/// word for word, names the place, and copies the finding, which is one that can be challenged.
pub open spec fn disproves(
    challenge: JsonView,
    proposed: Seq<JsonView>,
    baseline: Seq<JsonView>,
    index: int,
) -> bool {
    &&& proposed.contains(challenge)
    &&& text_field(challenge, "baseline_id"@) matches Some(id) && named_index(id) == Some(
        index as nat,
    )
    &&& 0 <= index < baseline.len()
    &&& copies_finding(challenge, baseline[index])
    &&& !reports_fix(baseline[index])
}

/// Whether one of the confirmed challenges disproves the finding at a place of the baseline.
pub open spec fn is_disproved(
    baseline: Seq<JsonView>,
    proposed: Seq<JsonView>,
    confirmed: Seq<JsonView>,
    index: int,
) -> bool {
    exists|j: int|
        0 <= j < confirmed.len() && disproves(
            #[trigger] confirmed[j],
            proposed,
            baseline,
            index,
        )
}

/// Those of the first `n` values that are not struck, in their order.
pub open spec fn unstruck(all: Seq<JsonView>, struck: spec_fn(int) -> bool, n: int) -> Seq<JsonView>
    decreases n,
{
    if n <= 0 {
        Seq::empty()
    } else {
        let before = unstruck(all, struck, n - 1);
        if struck(n - 1) {
            before
        } else {
            before.push(all[n - 1])
        }
    }
}

/// The findings of the baseline that no confirmed challenge disproves, in their order.
pub open spec fn undisputed(
    baseline: Seq<JsonView>,
    proposed: Seq<JsonView>,
    confirmed: Seq<JsonView>,
) -> Seq<JsonView> {
    unstruck(
        baseline,
        |i: int| is_disproved(baseline, proposed, confirmed, i),
        baseline.len() as int,
    )
}

/// The place of the baseline that a challenge disproves.
fn disproved_index(challenge: &Json, proposed: &Vec<Json>, baseline: &Vec<Json>) -> (r: Option<usize>)
    ensures
        match r {
            Some(i) => disproves(challenge@, views(proposed@), views(baseline@), i as int),
            None => forall|i: int|
                !#[trigger] disproves(challenge@, views(proposed@), views(baseline@), i),
        },
{
    if !contains_value(proposed.as_slice(), challenge) {
        return None;
    }
    let id = match challenge.get_str("baseline_id") {
        None => {
            return None;
        },
        Some(id) => id,
    };
    let chars = text::chars_of(id);
    let rest = match text::strip_prefix(chars.as_slice(), "fast-") {
        None => {
            return None;
        },
        Some(rest) => rest,
    };
    let index: usize = match text::parse_usize(rest) {
        None => {
            return None;
        },
        Some(index) => index,
    };
    let mut exact = text::copy_text("fast-");
    text::push_decimal(&mut exact, index as u64);
    if !text::same_text(id, exact.as_str()) || index >= baseline.len() {
        return None;
    }
    let finding = &baseline[index];
    assert(views(baseline@)[index as int] == finding@);
    if let Some(source) = finding.get_str("source") {
        if text::same_text(source, "upstream-fixes") {
            return None;
        }
    }
    let problem = match finding.get_str("problem") {
        None => {
            return None;
        },
        Some(problem) => problem,
    };
    if !same_option(challenge.get("finding"), Some(finding)) {
        return None;
    }
    let claim = match challenge.get("proof") {
        None => {
            return None;
        },
        Some(proof) => proof.get_str("finding_claim"),
    };
    match claim {
        Some(claim) => if text::same_text(claim, problem) {
            Some(index)
        } else {
            None
        },
        None => None,
    }
}

/// Marks the findings of the baseline that confirmed challenges disprove.
fn mark_disproved(baseline: &Vec<Json>, proposed: &Vec<Json>, confirmed: &Vec<Json>) -> (r: Vec<bool>)
    ensures
        r@.len() == baseline@.len(),
        forall|i: int|
            0 <= i < r@.len() ==> #[trigger] r@[i] == is_disproved(
                views(baseline@),
                views(proposed@),
                views(confirmed@),
                i,
            ),
{
    let mut marks: Vec<bool> = Vec::new();
    let mut n: usize = 0;
    while n < baseline.len()
        invariant
            n <= baseline@.len(),
            marks@.len() == n,
            forall|i: int| 0 <= i < n ==> !#[trigger] marks@[i],
        decreases baseline@.len() - n,
    {
        marks.push(false);
        n += 1;
    }
    let ghost all = views(baseline@);
    let ghost from = views(proposed@);
    let mut j: usize = 0;
    while j < confirmed.len()
        invariant
            j <= confirmed@.len(),
            marks@.len() == baseline@.len(),
            all == views(baseline@),
            from == views(proposed@),
            forall|i: int|
                0 <= i < marks@.len() ==> #[trigger] marks@[i] == is_disproved(
                    all,
                    from,
                    views(confirmed@).take(j as int),
                    i,
                ),
        decreases confirmed@.len() - j,
    {
        let ghost before = marks@;
        let found = disproved_index(&confirmed[j], proposed, baseline);
        if let Some(i) = found {
            marks.set(i, true);
        }
        proof {
            let seen = views(confirmed@).take(j as int);
            let next = views(confirmed@).take(j + 1);
            assert(next =~= seen.push(confirmed@[j as int]@));
            assert forall|i: int| 0 <= i < marks@.len() implies #[trigger] marks@[i]
                == is_disproved(all, from, next, i) by {
                let challenge = confirmed@[j as int]@;
                assert(next[j as int] == challenge);
                assert(before[i] == is_disproved(all, from, seen, i));
                if is_disproved(all, from, seen, i) {
                    let k = choose|k: int|
                        0 <= k < seen.len() && disproves(#[trigger] seen[k], from, all, i);
                    assert(next[k] == seen[k]);
                }
                if is_disproved(all, from, next, i) {
                    let k = choose|k: int|
                        0 <= k < next.len() && disproves(#[trigger] next[k], from, all, i);
                    if k < j {
                        assert(seen[k] == next[k]);
                    } else {
                        assert(disproves(challenge, from, all, i));
                    }
                }
                if let Some(at) = found {
                    assert(disproves(challenge, from, all, at as int));
                    if disproves(challenge, from, all, i) {
                        assert(at == i);
                    }
                }
            }
        }
        j += 1;
    }
    assert(views(confirmed@).take(j as int) =~= views(confirmed@));
    marks
}

/// Those of the values that are not marked, in their order.
fn keep_unmarked(all: &Vec<Json>, marks: &Vec<bool>) -> (r: Vec<Json>)
    requires
        marks@.len() == all@.len(),
    ensures
        views(r@) == unstruck(views(all@), |i: int| marks@[i], all@.len() as int),
{
    let ghost struck = |i: int| marks@[i];
    let mut kept: Vec<Json> = Vec::new();
    let mut i: usize = 0;
    while i < all.len()
        invariant
            i <= all@.len(),
            marks@.len() == all@.len(),
            forall|k: int| #[trigger] struck(k) == marks@[k],
            views(kept@) == unstruck(views(all@), struck, i as int),
        decreases all@.len() - i,
    {
        assert(struck(i as int) == marks@[i as int]);
        if !marks[i] {
            let ghost before = views(kept@);
            kept.push(all[i].clone());
            assert(views(kept@) =~= before.push(views(all@)[i as int]));
        }
        i += 1;
    }
    kept
}

proof fn lemma_unstruck_same(
    all: Seq<JsonView>,
    f: spec_fn(int) -> bool,
    g: spec_fn(int) -> bool,
    n: int,
)
    requires
        forall|i: int| 0 <= i < n ==> #[trigger] f(i) == g(i),
    ensures
        unstruck(all, f, n) == unstruck(all, g, n),
    decreases n,
{
    if n > 0 {
        lemma_unstruck_same(all, f, g, n - 1);
        assert(f(n - 1) == g(n - 1));
    }
}

proof fn lemma_unstruck_len(all: Seq<JsonView>, struck: spec_fn(int) -> bool, n: int)
    requires
        0 <= n,
    ensures
        unstruck(all, struck, n).len() <= n,
        (forall|i: int| 0 <= i < n ==> !#[trigger] struck(i)) <==> unstruck(all, struck, n).len()
            == n,
    decreases n,
{
    if n > 0 {
        lemma_unstruck_len(all, struck, n - 1);
        if !struck(n - 1) && (forall|i: int| 0 <= i < n - 1 ==> !#[trigger] struck(i)) {
            assert forall|i: int| 0 <= i < n implies !#[trigger] struck(i) by {}
        }
    }
}

/// Removes the findings of the fast pass that a confirmed challenge disproves, and counts them.
/// A challenge counts only if it was proposed word for word, names its finding by the exact
/// identifier, and copies the finding exactly. Findings that report fixes of upstream always stay.
pub fn apply_confirmed_fast_false_positives(
    baseline: &mut Json,
    proposed: &Vec<Json>,
    confirmed: &Vec<Json>,
) -> (r: usize)
    ensures
        match as_list(old(baseline)@) {
            Some(findings) => {
                let kept = undisputed(findings, views(proposed@), views(confirmed@));
                &&& final(baseline)@ == JsonView::List(kept)
                &&& r == findings.len() - kept.len()
            },
            None => final(baseline)@ == old(baseline)@ && r == 0,
        },
{
    let (kept, removed): (Vec<Json>, usize) = match baseline.as_list() {
        None => {
            return 0;
        },
        Some(findings) => {
            let marks = mark_disproved(findings, proposed, confirmed);
            let kept = keep_unmarked(findings, &marks);
            proof {
                let all = views(findings@);
                let struck = |i: int| is_disproved(all, views(proposed@), views(confirmed@), i);
                let marked = |i: int| marks@[i];
                assert forall|i: int| 0 <= i < all.len() implies #[trigger] marked(i) == struck(i) by {
                    assert(marks@[i] == marked(i));
                }
                lemma_unstruck_same(all, marked, struck, all.len() as int);
                lemma_unstruck_len(all, struck, all.len() as int);
                assert(views(kept@).len() == kept@.len());
            }
            let removed: usize = findings.len() - kept.len();
            (kept, removed)
        },
    };
    *baseline = Json::list(kept);
    removed
}

// ---------------------------------------------------------------------------------------------
// Findings that need the repository
// ---------------------------------------------------------------------------------------------

/// The values of a list, none where the value is no list.
pub open spec fn list_items(v: JsonView) -> Seq<JsonView> {
    match as_list(v) {
        Some(items) => items,
        None => Seq::empty(),
    }
}

/// Withholds the findings that must be held against the repository, where that was not done.
/// `sensitive` says of each finding whether it must be. Returns the others and the number of
/// those withheld.
pub fn without_unverified_sensitive_findings(findings: &Json, sensitive: &Vec<bool>) -> (r: (
    Vec<Json>,
    usize,
))
    requires
        sensitive@.len() == list_items(findings@).len(),
    ensures
        views(r.0@) == unstruck(
            list_items(findings@),
            |i: int| sensitive@[i],
            list_items(findings@).len() as int,
        ),
        r.1 == list_items(findings@).len() - r.0@.len(),
{
    let raw = match findings.as_list() {
        Some(items) => copy_list(items),
        None => Vec::new(),
    };
    assert(views(raw@) =~= list_items(findings@));
    let retained = keep_unmarked(&raw, sensitive);
    proof {
        lemma_unstruck_len(views(raw@), |i: int| sensitive@[i], raw@.len() as int);
        assert(views(retained@).len() == retained@.len());
    }
    let withheld: usize = raw.len() - retained.len();
    (retained, withheld)
}

// ---------------------------------------------------------------------------------------------
// Laws
// ---------------------------------------------------------------------------------------------

/// What is not struck stays, and what stays was there and is not struck.
pub proof fn lemma_unstruck_members(all: Seq<JsonView>, struck: spec_fn(int) -> bool, n: int)
    requires
        0 <= n <= all.len(),
    ensures
        forall|i: int|
            0 <= i < n && !#[trigger] struck(i) ==> unstruck(all, struck, n).contains(all[i]),
        forall|k: int|
            0 <= k < unstruck(all, struck, n).len() ==> exists|i: int|
                0 <= i < n && !struck(i) && all[i] == #[trigger] unstruck(all, struck, n)[k],
    decreases n,
{
    if n > 0 {
        lemma_unstruck_members(all, struck, n - 1);
        let before = unstruck(all, struck, n - 1);
        let after = unstruck(all, struck, n);
        assert forall|i: int| 0 <= i < n && !#[trigger] struck(i) implies after.contains(all[i]) by {
            if i < n - 1 {
                let k = choose|k: int| 0 <= k < before.len() && before[k] == all[i];
                assert(after[k] == all[i]);
            } else {
                assert(after[after.len() - 1] == all[i]);
            }
        }
        assert forall|k: int| 0 <= k < after.len() implies exists|i: int|
            0 <= i < n && !struck(i) && all[i] == #[trigger] after[k] by {
            if k < before.len() {
                let i = choose|i: int| 0 <= i < n - 1 && !struck(i) && all[i] == before[k];
                assert(!struck(i) && all[i] == after[k]);
            } else {
                assert(!struck(n - 1) && all[n - 1] == after[k]);
            }
        }
    }
}

/// A finding of the baseline is removed only on account of a challenge that disproves it, and
/// nothing is put in its place.
pub proof fn lemma_only_disproved_findings_go(
    baseline: Seq<JsonView>,
    proposed: Seq<JsonView>,
    confirmed: Seq<JsonView>,
)
    ensures
        forall|i: int|
            0 <= i < baseline.len() && !is_disproved(baseline, proposed, confirmed, i)
                ==> undisputed(baseline, proposed, confirmed).contains(#[trigger] baseline[i]),
        forall|k: int|
            0 <= k < undisputed(baseline, proposed, confirmed).len() ==> baseline.contains(
                #[trigger] undisputed(baseline, proposed, confirmed)[k],
            ),
{
    let struck = |i: int| is_disproved(baseline, proposed, confirmed, i);
    lemma_unstruck_members(baseline, struck, baseline.len() as int);
    assert forall|i: int|
        0 <= i < baseline.len() && !is_disproved(
            baseline,
            proposed,
            confirmed,
            i,
        ) implies undisputed(baseline, proposed, confirmed).contains(#[trigger] baseline[i]) by {
        assert(!struck(i));
    }
}

/// Confirmations that were never proposed, or that copy no finding exactly, remove nothing.
pub proof fn lemma_baseline_stays_without_exact_challenge(
    baseline: Seq<JsonView>,
    proposed: Seq<JsonView>,
    confirmed: Seq<JsonView>,
)
    requires
        forall|j: int|
            0 <= j < confirmed.len() ==> !proposed.contains(#[trigger] confirmed[j]) || (forall|i: int|
                0 <= i < baseline.len() ==> !copies_finding(confirmed[j], #[trigger] baseline[i])),
    ensures
        undisputed(baseline, proposed, confirmed) == baseline,
{
    let struck = |i: int| is_disproved(baseline, proposed, confirmed, i);
    lemma_unstruck_none(baseline, struck, baseline.len() as int);
}

proof fn lemma_unstruck_none(all: Seq<JsonView>, struck: spec_fn(int) -> bool, n: int)
    requires
        0 <= n <= all.len(),
        forall|i: int| 0 <= i < n ==> !#[trigger] struck(i),
    ensures
        unstruck(all, struck, n) == all.take(n),
    decreases n,
{
    if n > 0 {
        lemma_unstruck_none(all, struck, n - 1);
        assert(!struck(n - 1));
        assert(all.take(n - 1).push(all[n - 1]) =~= all.take(n));
    } else {
        assert(all.take(0) =~= Seq::empty());
    }
}

/// The fixes that upstream has can never be removed, whatever is proposed and confirmed.
pub proof fn lemma_fixes_stay(
    baseline: Seq<JsonView>,
    proposed: Seq<JsonView>,
    confirmed: Seq<JsonView>,
)
    ensures
        forall|i: int|
            0 <= i < baseline.len() && reports_fix(#[trigger] baseline[i]) ==> undisputed(
                baseline,
                proposed,
                confirmed,
            ).contains(baseline[i]),
{
    lemma_only_disproved_findings_go(baseline, proposed, confirmed);
    assert forall|i: int|
        0 <= i < baseline.len() && reports_fix(#[trigger] baseline[i]) implies undisputed(
        baseline,
        proposed,
        confirmed,
    ).contains(baseline[i]) by {
        assert(!is_disproved(baseline, proposed, confirmed, i));
    }
}

/// A challenge disproves at most one finding.
pub proof fn lemma_challenge_names_one_finding(
    challenge: JsonView,
    proposed: Seq<JsonView>,
    baseline: Seq<JsonView>,
    i: int,
    j: int,
)
    requires
        disproves(challenge, proposed, baseline, i),
        disproves(challenge, proposed, baseline, j),
    ensures
        i == j,
{
}

/// Each place has exactly one name: other spellings of its number name nothing.
pub proof fn lemma_baseline_names_are_exact(id: Seq<char>, index: nat)
    requires
        index <= usize::MAX,
    ensures
        named_index(id) == Some(index) <==> id == baseline_id(index),
{
    let prefix = "fast-"@;
    let name = baseline_id(index);
    assert(name.take(prefix.len() as int) =~= prefix);
    assert(name.skip(prefix.len() as int) =~= text::decimal(index));
    text::lemma_parse_decimal(index, usize::MAX as nat);
    if id == name {
        assert(text::after_prefix(id, prefix) == Some(text::decimal(index)));
    }
}

} // verus!
