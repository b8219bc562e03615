//! What holds of findings, in terms of the members that they have: which are the same, which are
//! put together, which stay, and which keep their places.

use vstd::prelude::*;
use crate::anchors::{
    MessageConcernRepair, anchored, anchored_report, cleaned_report, identifiers_among,
    in_changed_file, in_changed_files, is_identifier, is_repaired, named_identifiers, quoted,
    without_call,
};
use crate::challenges::{baseline_id, disproves, is_disproved, named_index, undisputed, unstruck};
use crate::challenges;
use crate::diff_index::{LineKey, Side, names_identifier, shown_lines};
use crate::findings::{combined_report, merged, problem_words, same_identity, wants_linkage_context};
use crate::json::{Json, JsonView, NumberView, field};
use crate::patch_laws;
use crate::text;

verus! {

// ---------------------------------------------------------------------------------------------
// Which findings are the same
// ---------------------------------------------------------------------------------------------

/// Whether a finding reports the fix with the given commit.
pub open spec fn is_fixed_by(finding: JsonView, sha: Seq<char>) -> bool {
    field(finding, "upstream_fix"@) matches Some(fix) && field(fix, "sha"@) == Some(
        JsonView::Text(sha),
    )
}

/// Two findings that report upstream fixes are the same exactly if they report the same commit,
/// whatever else they say.
pub proof fn lemma_same_fixes(a: JsonView, b: JsonView, x: Seq<char>, y: Seq<char>)
    requires
        is_fixed_by(a, x),
        is_fixed_by(b, y),
    ensures
        same_identity(a, b) <==> x == y,
{
}

/// Two findings that do not both report upstream fixes are the same exactly if their locations are
/// equal in full, or absent in both, and their problems have the same words, and any at all.
pub proof fn lemma_same_places(a: JsonView, b: JsonView)
    requires
        (forall|sha: Seq<char>| !is_fixed_by(a, sha)) || (forall|sha: Seq<char>|
            !is_fixed_by(b, sha)),
    ensures
        same_identity(a, b) <==> {
            &&& field(a, "location"@) == field(b, "location"@)
            &&& problem_words(a) == problem_words(b)
            &&& problem_words(a).len() > 0
        },
        same_identity(a, b) ==> forall|x: JsonView, y: JsonView, name: Seq<char>|
            field(a, "location"@) == Some(x) && field(b, "location"@) == Some(y)
                ==> #[trigger] field(
                x,
                name,
            ) == #[trigger] field(y, name),
{
    if forall|sha: Seq<char>| !is_fixed_by(a, sha) {
        if let Some(fix) = field(a, "upstream_fix"@) {
            if let Some(JsonView::Text(sha)) = field(fix, "sha"@) {
                assert(is_fixed_by(a, sha));
            }
        }
    } else {
        if let Some(fix) = field(b, "upstream_fix"@) {
            if let Some(JsonView::Text(sha)) = field(fix, "sha"@) {
                assert(is_fixed_by(b, sha));
            }
        }
    }
}

/// The words of a finding are those of its problem, and there are none without one.
pub proof fn lemma_words_of_problem(finding: JsonView, problem: Seq<char>)
    ensures
        field(finding, "problem"@) == Some(JsonView::Text(problem)) ==> problem_words(finding)
            == text::plain_words(problem),
        !(field(finding, "problem"@) matches Some(JsonView::Text(_))) ==> problem_words(
            finding,
        ).len() == 0,
{
    let empty = Seq::<char>::empty();
    assert(text::plain_words(empty).len() == 0) by {
        lemma_no_words_in_nothing();
    }
}

proof fn lemma_no_words_in_nothing()
    ensures
        text::plain_words(Seq::empty()).len() == 0,
{
    crate::text_laws::lemma_no_words(Seq::empty());
}

// ---------------------------------------------------------------------------------------------
// Merging
// ---------------------------------------------------------------------------------------------

/// Merging nothing changes nothing, and of one more addition all that was merged before stays: it
/// is put behind that, unless it is the same as a finding there, in which case nothing is.
pub proof fn lemma_merge_one_more(base: Seq<JsonView>, additions: Seq<JsonView>, x: JsonView)
    ensures
        merged(base, Seq::empty()) == base,
        (forall|i: int|
            0 <= i < merged(base, additions).len() ==> !same_identity(
                #[trigger] merged(base, additions)[i],
                x,
            )) ==> merged(base, additions.push(x)) == merged(base, additions).push(x),
        (exists|i: int|
            0 <= i < merged(base, additions).len() && same_identity(
                #[trigger] merged(base, additions)[i],
                x,
            )) ==> merged(base, additions.push(x)) == merged(base, additions),
{
    assert(additions.push(x).drop_last() =~= additions);
}

/// An addition that reports no upstream fix and whose location is that of no finding in front of
/// it is put behind them; so is one whose problem has no words.
pub proof fn lemma_merge_adds_other_places(base: Seq<JsonView>, additions: Seq<JsonView>, x: JsonView)
    requires
        forall|sha: Seq<char>| !is_fixed_by(x, sha),
    ensures
        (forall|i: int|
            0 <= i < merged(base, additions).len() ==> field(
                #[trigger] merged(base, additions)[i],
                "location"@,
            ) != field(x, "location"@)) ==> merged(base, additions.push(x)) == merged(
            base,
            additions,
        ).push(x),
        (forall|i: int|
            0 <= i < merged(base, additions).len() ==> problem_words(
                #[trigger] merged(base, additions)[i],
            ) != problem_words(x)) ==> merged(base, additions.push(x)) == merged(
            base,
            additions,
        ).push(x),
        problem_words(x).len() == 0 ==> merged(base, additions.push(x)) == merged(
            base,
            additions,
        ).push(x),
{
    lemma_merge_one_more(base, additions, x);
    let before = merged(base, additions);
    assert forall|i: int|
        0 <= i < before.len() implies same_identity(#[trigger] before[i], x) == {
        &&& field(before[i], "location"@) == field(x, "location"@)
        &&& problem_words(before[i]) == problem_words(x)
        &&& problem_words(before[i]).len() > 0
    } by {
        lemma_same_places(before[i], x);
    }
}

/// An addition that reports an upstream fix is left out if a finding in front of it reports the
/// same commit, and put behind them if they all report other ones.
pub proof fn lemma_merge_fix(
    base: Seq<JsonView>,
    additions: Seq<JsonView>,
    x: JsonView,
    sha: Seq<char>,
)
    requires
        is_fixed_by(x, sha),
    ensures
        (exists|i: int|
            0 <= i < merged(base, additions).len() && is_fixed_by(
                #[trigger] merged(base, additions)[i],
                sha,
            )) ==> merged(base, additions.push(x)) == merged(base, additions),
        (forall|i: int|
            0 <= i < merged(base, additions).len() ==> exists|other: Seq<char>|
                other != sha && is_fixed_by(#[trigger] merged(base, additions)[i], other))
            ==> merged(base, additions.push(x)) == merged(base, additions).push(x),
{
    lemma_merge_one_more(base, additions, x);
    let before = merged(base, additions);
    assert forall|i: int, other: Seq<char>|
        0 <= i < before.len() && #[trigger] is_fixed_by(before[i], other) implies (same_identity(
        before[i],
        x,
    ) <==> other == sha) by {
        lemma_same_fixes(before[i], x, other, sha);
    }
}

/// A combined report has one member, the list of what was merged from the lists of findings of the
/// two reports; a report without such a list has no findings.
pub proof fn lemma_combined_members(
    baseline: JsonView,
    additions: JsonView,
    a: Seq<JsonView>,
    b: Seq<JsonView>,
    name: Seq<char>,
)
    requires
        field(baseline, "findings"@) == Some(JsonView::List(a)) || (a.len() == 0 && !(field(
            baseline,
            "findings"@,
        ) matches Some(JsonView::List(_)))),
        field(additions, "findings"@) == Some(JsonView::List(b)) || (b.len() == 0 && !(field(
            additions,
            "findings"@,
        ) matches Some(JsonView::List(_)))),
    ensures
        field(combined_report(baseline, additions), "findings"@) == Some(
            JsonView::List(merged(a, b)),
        ),
        name != "findings"@ ==> field(combined_report(baseline, additions), name) is None,
{
    if a.len() == 0 {
        assert(a =~= Seq::empty());
    }
    if b.len() == 0 {
        assert(b =~= Seq::empty());
    }
}

/// A concern is looked at with its linkage if it is about that or brings a proof.
pub proof fn lemma_linkage_context(concern: JsonView)
    ensures
        wants_linkage_context(concern) <==> field(concern, "category"@) == Some(
            JsonView::Text("configuration-linkage"@),
        ) || field(concern, "proof"@) is Some,
{
}

// ---------------------------------------------------------------------------------------------
// Challenges
// ---------------------------------------------------------------------------------------------

/// A challenge disproves the finding at a place exactly if it was proposed, has the name of the
/// place, copies the finding as it is and claims its problem, and the finding has a problem and
/// reports no fix of upstream.
pub proof fn lemma_disproving_challenge(
    challenge: JsonView,
    proposed: Seq<JsonView>,
    baseline: Seq<JsonView>,
    index: int,
)
    requires
        0 <= index < baseline.len() <= usize::MAX,
    ensures
        disproves(challenge, proposed, baseline, index) <==> {
            &&& proposed.contains(challenge)
            &&& field(challenge, "baseline_id"@) == Some(
                JsonView::Text("fast-"@ + text::decimal(index as nat)),
            )
            &&& field(challenge, "finding"@) == Some(baseline[index])
            &&& field(baseline[index], "problem"@) matches Some(JsonView::Text(problem)) && field(
                challenge,
                "proof"@,
            ) matches Some(proof) && field(proof, "finding_claim"@) == Some(JsonView::Text(problem))
            &&& field(baseline[index], "source"@) != Some(JsonView::Text("upstream-fixes"@))
        },
{
    if let Some(JsonView::Text(id)) = field(challenge, "baseline_id"@) {
        challenges::lemma_baseline_names_are_exact(id, index as nat);
    }
    if let Some(JsonView::Text(problem)) = field(baseline[index], "problem"@) {
        if let Some(proof) = field(challenge, "proof"@) {
            if let Some(JsonView::Text(claim)) = field(proof, "finding_claim"@) {
                assert((Some(claim) == Some(problem)) == (claim == problem));
            }
        }
    }
}

/// How many of the first `n` places are not struck.
pub open spec fn kept_before(struck: spec_fn(int) -> bool, n: int) -> int
    decreases n,
{
    if n <= 0 {
        0
    } else if struck(n - 1) {
        kept_before(struck, n - 1)
    } else {
        kept_before(struck, n - 1) + 1
    }
}

/// Every value that is not struck stands behind just those in front of it that are not struck, and
/// there are no others.
pub proof fn lemma_unstruck_places(all: Seq<JsonView>, struck: spec_fn(int) -> bool, n: int)
    requires
        0 <= n <= all.len(),
    ensures
        unstruck(all, struck, n).len() == kept_before(struck, n),
        0 <= kept_before(struck, n) <= n,
        forall|i: int|
            0 <= i < n && !#[trigger] struck(i) ==> 0 <= kept_before(struck, i) < unstruck(
                all,
                struck,
                n,
            ).len() && unstruck(all, struck, n)[kept_before(struck, i)] == all[i],
    decreases n,
{
    if n > 0 {
        lemma_unstruck_places(all, struck, n - 1);
    }
}

/// Each finding of the baseline stays, in its order, unless one of the confirmed challenges
/// disproves it; the number of those that stay is the number of those that none disproves.
pub proof fn lemma_undisputed_places(
    baseline: Seq<JsonView>,
    proposed: Seq<JsonView>,
    confirmed: Seq<JsonView>,
)
    ensures
        ({
            let struck = |i: int|
                exists|j: int|
                    0 <= j < confirmed.len() && disproves(
                        #[trigger] confirmed[j],
                        proposed,
                        baseline,
                        i,
                    );
            let kept = undisputed(baseline, proposed, confirmed);
            &&& kept.len() == kept_before(struck, baseline.len() as int)
            &&& forall|i: int|
                0 <= i < baseline.len() && !#[trigger] struck(i) ==> kept[kept_before(struck, i)]
                    == baseline[i]
        }),
{
    let struck = |i: int|
        exists|j: int|
            0 <= j < confirmed.len() && disproves(#[trigger] confirmed[j], proposed, baseline, i);
    let same = |i: int| is_disproved(baseline, proposed, confirmed, i);
    assert(struck =~= same);
    lemma_unstruck_places(baseline, struck, baseline.len() as int);
}

/// A place of the baseline is named by `fast-` and its number.
pub proof fn lemma_baseline_name(index: nat)
    requires
        index <= usize::MAX,
    ensures
        baseline_id(index) == "fast-"@ + text::decimal(index),
        named_index("fast-"@ + text::decimal(index)) == Some(index),
{
    challenges::lemma_baseline_names_are_exact("fast-"@ + text::decimal(index), index);
}

// ---------------------------------------------------------------------------------------------
// Identifiers named in prose
// ---------------------------------------------------------------------------------------------

/// What stands between the first two backticks is quoted, and then what the rest quotes; with
/// fewer than two backticks nothing is.
pub proof fn lemma_quoted_piece(a: Seq<char>, b: Seq<char>, rest: Seq<char>)
    requires
        forall|i: int| 0 <= i < a.len() ==> #[trigger] a[i] != '`',
        forall|i: int| 0 <= i < b.len() ==> #[trigger] b[i] != '`',
    ensures
        quoted(a).len() == 0,
        quoted(a + seq!['`'] + b).len() == 0,
        quoted(a + seq!['`'] + b + seq!['`'] + rest) == seq![b] + quoted(rest),
{
    let n = a.len() as int;
    text::lemma_find_char_unique(a, '`', n);
    let open = a + seq!['`'] + b;
    text::lemma_find_char_unique(open, '`', n);
    assert(open.skip(n + 1) =~= b);
    text::lemma_find_char_unique(b, '`', b.len() as int);
    let s = a + seq!['`'] + b + seq!['`'] + rest;
    text::lemma_find_char_unique(s, '`', n);
    let tail = s.skip(n + 1);
    assert(tail =~= b + seq!['`'] + rest);
    text::lemma_find_char_unique(tail, '`', b.len() as int);
    assert(tail.take(b.len() as int) =~= b);
    assert(tail.skip(b.len() as int + 1) =~= rest);
}

/// The brackets of calls are taken off a name, however many there are, and nothing else is.
pub proof fn lemma_without_call(s: Seq<char>)
    ensures
        without_call(s + seq!['(', ')']) == without_call(s),
        s.len() < 2 || s[s.len() - 2] != '(' || s[s.len() - 1] != ')' ==> without_call(s) == s,
{
    let called = s + seq!['(', ')'];
    assert(called.take(called.len() - 2) =~= s);
}

/// An identifier is made of letters, digits and underscores, and begins with no digit.
pub proof fn lemma_identifier(s: Seq<char>)
    ensures
        is_identifier(s) <==> {
            &&& s.len() > 0
            &&& !(48 <= s[0] as u32 <= 57)
            &&& forall|i: int|
                #![trigger s[i]]
                0 <= i < s.len() ==> 48 <= s[i] as u32 <= 57 || 65 <= s[i] as u32 <= 90
                    || s[i] as u32 == 95 || 97 <= s[i] as u32 <= 122
        },
{
    assert forall|i: int|
        #![trigger s[i]]
        0 <= i < s.len() implies text::is_ident_char(s[i]) == (48 <= s[i] as u32 <= 57 || 65
        <= s[i] as u32 <= 90 || s[i] as u32 == 95 || 97 <= s[i] as u32 <= 122) by {
        crate::text_laws::lemma_character_classes(s[i]);
    }
    if s.len() > 0 {
        crate::text_laws::lemma_character_classes(s[0]);
    }
}

/// Of one more piece the name counts that it has between its outer white space and in front of its
/// brackets, if that is an identifier and has not been seen; all others stay as they are.
pub proof fn lemma_identifiers_one_more(pieces: Seq<Seq<char>>, piece: Seq<char>)
    ensures
        identifiers_among(Seq::empty()).len() == 0,
        ({
            let name = without_call(text::trim(piece));
            let before = identifiers_among(pieces);
            identifiers_among(pieces.push(piece)) == if is_identifier(name) && !before.contains(
                name,
            ) {
                before.push(name)
            } else {
                before
            }
        }),
{
    assert(pieces.push(piece).drop_last() =~= pieces);
}

/// A text names just the identifiers among what it quotes.
pub proof fn lemma_named_identifiers(s: Seq<char>, name: Seq<char>)
    ensures
        named_identifiers(s).contains(name) <==> is_identifier(name) && exists|i: int|
            0 <= i < quoted(s).len() && without_call(text::trim(#[trigger] quoted(s)[i])) == name,
        forall|i: int, j: int|
            0 <= i < j < named_identifiers(s).len() ==> #[trigger] named_identifiers(s)[i]
                != #[trigger] named_identifiers(s)[j],
{
    lemma_among(quoted(s), name);
}

proof fn lemma_among(pieces: Seq<Seq<char>>, name: Seq<char>)
    ensures
        identifiers_among(pieces).contains(name) <==> is_identifier(name) && exists|i: int|
            0 <= i < pieces.len() && without_call(text::trim(#[trigger] pieces[i])) == name,
        forall|i: int, j: int|
            0 <= i < j < identifiers_among(pieces).len() ==> #[trigger] identifiers_among(pieces)[i]
                != #[trigger] identifiers_among(pieces)[j],
    decreases pieces.len(),
{
    if pieces.len() > 0 {
        let rest = pieces.drop_last();
        lemma_among(rest, name);
        let before = identifiers_among(rest);
        let last = without_call(text::trim(pieces.last()));
        let n = pieces.len() - 1;
        assert(pieces[n] == pieces.last());
        if exists|i: int| 0 <= i < rest.len() && without_call(text::trim(#[trigger] rest[i]))
            == name {
            let i = choose|i: int|
                0 <= i < rest.len() && without_call(text::trim(#[trigger] rest[i])) == name;
            assert(pieces[i] == rest[i]);
        }
        assert forall|i: int| 0 <= i < n implies #[trigger] pieces[i] == rest[i] by {}
        if is_identifier(last) && !before.contains(last) {
            let after = before.push(last);
            assert(after[before.len() as int] == last);
            if before.contains(name) {
                let k = choose|k: int| 0 <= k < before.len() && before[k] == name;
                assert(after[k] == name);
            }
            if after.contains(name) {
                let k = choose|k: int| 0 <= k < after.len() && after[k] == name;
                if k < before.len() {
                    assert(before[k] == name);
                }
            }
        }
    }
}

// ---------------------------------------------------------------------------------------------
// Places
// ---------------------------------------------------------------------------------------------

/// Whether a location begins at a line of a file, on the new side unless it says otherwise.
pub open spec fn begins_at(location: JsonView, file: Seq<char>, line: u64, side: Side) -> bool {
    &&& file.len() > 0
    &&& field(location, "file"@) == Some(JsonView::Text(file))
    &&& field(location, "line"@) == Some(JsonView::Number(NumberView::Integer(line as int)))
    &&& side == Side::Left <==> field(location, "side"@) == Some(JsonView::Text("LEFT"@))
}

/// Whether a location gives the number of its last line.
pub open spec fn ends_at(location: JsonView, last: u64) -> bool {
    field(location, "line_end"@) == Some(JsonView::Number(NumberView::Integer(last as int)))
}

/// Whether the lines from `line` to `last` are those that a location covers: up to the end that it
/// gives, if that is shown, and its first line alone otherwise.
pub open spec fn covers(
    location: JsonView,
    file: Seq<char>,
    line: u64,
    side: Side,
    last: u64,
    shown: Map<LineKey, Seq<char>>,
) -> bool {
    ||| ends_at(location, last) && shown.contains_key(LineKey { file, line: last as nat, side })
    ||| last == line && forall|e: u64|
        #[trigger] ends_at(location, e) ==> !shown.contains_key(
            LineKey { file, line: e as nat, side },
        )
}

/// Whether some shown line from `line` to `last` names one of the identifiers that a problem names.
pub open spec fn mentioned(
    problem: Seq<char>,
    file: Seq<char>,
    line: u64,
    side: Side,
    last: u64,
    shown: Map<LineKey, Seq<char>>,
) -> bool {
    exists|n: nat, j: int|
        #![trigger shown[LineKey { file, line: n, side }], named_identifiers(problem)[j]]
        line <= n <= last && 0 <= j < named_identifiers(problem).len() && shown.contains_key(
            LineKey { file, line: n, side },
        ) && names_identifier(
            shown[LineKey { file, line: n, side }],
            named_identifiers(problem)[j],
        )
}

/// A location with a start stays exactly if that line is shown and the lines that it covers mention
/// what the problem names, if that names anything. What stays has all its members, but for an end
/// that is not shown.
pub proof fn lemma_location_stays(
    finding: JsonView,
    location: JsonView,
    file: Seq<char>,
    line: u64,
    side: Side,
    last: u64,
    shown: Map<LineKey, Seq<char>>,
    name: Seq<char>,
)
    requires
        field(finding, "location"@) == Some(location),
        begins_at(location, file, line, side),
        covers(location, file, line, side, last, shown),
    ensures
        field(anchored(finding, shown), "location"@) is Some <==> {
            &&& shown.contains_key(LineKey { file, line: line as nat, side })
            &&& field(finding, "problem"@) matches Some(JsonView::Text(problem)) ==> {
                ||| named_identifiers(problem).len() == 0
                ||| mentioned(problem, file, line, side, last, shown)
            }
        },
        field(anchored(finding, shown), "location"@) matches Some(kept) ==> {
            &&& begins_at(kept, file, line, side)
            &&& name != "line_end"@ ==> field(kept, name) == field(location, name)
            &&& field(kept, "line_end"@) == if (exists|e: u64|
                #[trigger] ends_at(location, e) && !shown.contains_key(
                    LineKey { file, line: e as nat, side },
                )) {
                None
            } else {
                field(location, "line_end"@)
            }
        },
{
    lemma_place_names_differ();
    let start = LineKey { file, line: line as nat, side };
    assert(crate::anchors::location_start(location) == Some(start));
    let kept = crate::anchors::with_shown_end(location, start, shown);
    if let Some(JsonView::Number(NumberView::Integer(k))) = field(location, "line_end"@) {
        if 0 <= k <= u64::MAX {
            let e = k as u64;
            assert(ends_at(location, e));
            assert(forall|x: u64| #[trigger] ends_at(location, x) ==> x == e);
        } else {
            assert(forall|x: u64| !#[trigger] ends_at(location, x));
        }
    } else {
        assert(forall|x: u64| !#[trigger] ends_at(location, x));
    }
    assert(crate::anchors::location_end(kept, line as nat) == last);
    if let Some(JsonView::Text(problem)) = field(finding, "problem"@) {
        patch_laws::lemma_range_names(
            shown,
            file,
            line as nat,
            last as nat,
            side,
            named_identifiers(problem),
        );
        if mentioned(problem, file, line, side, last, shown) {
            let (n, j) = choose|n: nat, j: int|
                #![trigger shown[LineKey { file, line: n, side }], named_identifiers(problem)[j]]
                line <= n <= last && 0 <= j < named_identifiers(problem).len()
                    && shown.contains_key(LineKey { file, line: n, side }) && names_identifier(
                    shown[LineKey { file, line: n, side }],
                    named_identifiers(problem)[j],
                );
            assert(names_identifier(
                shown[LineKey { file, line: n, side }],
                named_identifiers(problem)[j],
            ));
        }
    }
}

proof fn lemma_place_names_differ()
    ensures
        "line_end"@ != "line"@,
        "line_end"@ != "file"@,
        "line_end"@ != "side"@,
        "problem"@ != "location"@,
        "RIGHT"@ != "LEFT"@,
{
    reveal_strlit("line_end");
    reveal_strlit("line");
    reveal_strlit("file");
    reveal_strlit("side");
    reveal_strlit("problem");
    reveal_strlit("location");
    reveal_strlit("RIGHT");
    reveal_strlit("LEFT");
    assert("line_end"@.len() == 8 && "line"@.len() == 4 && "file"@.len() == 4 && "side"@.len()
        == 4);
    assert("problem"@.len() == 7 && "location"@.len() == 8);
    assert("RIGHT"@.len() == 5 && "LEFT"@.len() == 4);
}

/// As soon as some shown line of those that a shown location covers names any one of the
/// identifiers that the problem names, the finding keeps a location with the same file, line and
/// side.
pub proof fn lemma_any_identifier_keeps_location(
    finding: JsonView,
    location: JsonView,
    file: Seq<char>,
    line: u64,
    side: Side,
    last: u64,
    shown: Map<LineKey, Seq<char>>,
    problem: Seq<char>,
    n: nat,
    j: int,
)
    requires
        field(finding, "location"@) == Some(location),
        field(finding, "problem"@) == Some(JsonView::Text(problem)),
        begins_at(location, file, line, side),
        covers(location, file, line, side, last, shown),
        shown.contains_key(LineKey { file, line: line as nat, side }),
        line <= n <= last,
        shown.contains_key(LineKey { file, line: n, side }),
        0 <= j < named_identifiers(problem).len(),
        names_identifier(shown[LineKey { file, line: n, side }], named_identifiers(problem)[j]),
    ensures
        field(anchored(finding, shown), "location"@) matches Some(kept) && {
            &&& field(kept, "file"@) == field(location, "file"@)
            &&& field(kept, "line"@) == field(location, "line"@)
            &&& field(kept, "side"@) == field(location, "side"@)
        },
{
    lemma_place_names_differ();
    assert(mentioned(problem, file, line, side, last, shown));
    lemma_location_stays(finding, location, file, line, side, last, shown, "file"@);
    lemma_location_stays(finding, location, file, line, side, last, shown, "line"@);
    lemma_location_stays(finding, location, file, line, side, last, shown, "side"@);
}

/// A location that names no file or no line stays as it is, and so does all of a finding but its
/// location.
pub proof fn lemma_location_without_start(
    finding: JsonView,
    shown: Map<LineKey, Seq<char>>,
    name: Seq<char>,
)
    ensures
        (forall|location: JsonView, file: Seq<char>, line: u64, side: Side|
            field(finding, "location"@) == Some(location) ==> !#[trigger] begins_at(
                location,
                file,
                line,
                side,
            )) ==> field(anchored(finding, shown), "location"@) == field(finding, "location"@),
        field(finding, "location"@) is None ==> anchored(finding, shown) == finding,
        name != "location"@ ==> field(anchored(finding, shown), name) == field(finding, name),
{
    lemma_place_names_differ();
    if let Some(location) = field(finding, "location"@) {
        if let Some(start) = crate::anchors::location_start(location) {
            if let Some(JsonView::Number(NumberView::Integer(k))) = field(location, "line"@) {
                assert(begins_at(location, start.file, k as u64, start.side));
            }
        }
    }
}

/// A finding loses its location if that names a file that is not among the changed ones, and only
/// then; all else of it stays.
pub proof fn lemma_location_in_changed_file(
    finding: JsonView,
    changed: Seq<Seq<char>>,
    name: Seq<char>,
)
    ensures
        (field(finding, "location"@) matches Some(location) && field(location, "file"@) matches Some(
            JsonView::Text(file),
        ) && forall|i: int| 0 <= i < changed.len() ==> #[trigger] changed[i] != file) ==> field(
            in_changed_file(finding, changed),
            "location"@,
        ) is None,
        !(field(finding, "location"@) matches Some(location) && field(location, "file"@) matches Some(
            JsonView::Text(file),
        ) && forall|i: int| 0 <= i < changed.len() ==> #[trigger] changed[i] != file)
            ==> in_changed_file(finding, changed) == finding,
        name != "location"@ ==> field(in_changed_file(finding, changed), name) == field(
            finding,
            name,
        ),
{
}

/// Every finding of a report is held to the changed files and to the shown lines, each in its
/// place, and nothing else of the report changes.
pub proof fn lemma_each_finding_is_checked(
    report: JsonView,
    findings: Seq<JsonView>,
    changed: Seq<Seq<char>>,
    shown: Map<LineKey, Seq<char>>,
    name: Seq<char>,
)
    requires
        field(report, "findings"@) == Some(JsonView::List(findings)),
    ensures
        field(anchored_report(report, shown), "findings"@) matches Some(JsonView::List(after))
            && after.len() == findings.len() && forall|i: int|
            0 <= i < findings.len() ==> #[trigger] after[i] == anchored(findings[i], shown),
        field(in_changed_files(report, changed), "findings"@) matches Some(JsonView::List(after))
            && after.len() == findings.len() && forall|i: int|
            0 <= i < findings.len() ==> #[trigger] after[i] == in_changed_file(
                findings[i],
                changed,
            ),
        name != "findings"@ ==> field(anchored_report(report, shown), name) == field(report, name),
        name != "findings"@ ==> field(in_changed_files(report, changed), name) == field(
            report,
            name,
        ),
{
}

/// A report without a list of findings stays as it is.
pub proof fn lemma_report_without_findings(
    report: JsonView,
    changed: Seq<Seq<char>>,
    shown: Map<LineKey, Seq<char>>,
)
    requires
        !(field(report, "findings"@) matches Some(JsonView::List(_))),
    ensures
        anchored_report(report, shown) == report,
        in_changed_files(report, changed) == report,
{
}

/// A report is first held to the changed files and then to the lines of the patch.
pub proof fn lemma_cleaned_findings(
    report: JsonView,
    patch: Seq<char>,
    changed: Seq<Seq<char>>,
    findings: Seq<JsonView>,
    name: Seq<char>,
)
    requires
        field(report, "findings"@) == Some(JsonView::List(findings)),
    ensures
        field(cleaned_report(report, patch, changed), "findings"@) matches Some(
            JsonView::List(after),
        ) && after.len() == findings.len() && forall|i: int|
            0 <= i < findings.len() ==> #[trigger] after[i] == anchored(
                in_changed_file(findings[i], changed),
                shown_lines(patch),
            ),
        name != "findings"@ ==> field(cleaned_report(report, patch, changed), name) == field(
            report,
            name,
        ),
{
}

/// What a repair leaves is held to the lines of the patch once more: no finding that comes out of
/// it points at a line that the patch does not show.
pub proof fn lemma_repaired_findings_are_checked<F: Fn(Json) -> (Json, MessageConcernRepair)>(
    report: JsonView,
    patch: Seq<char>,
    changed: Seq<Seq<char>>,
    repair: F,
    done: MessageConcernRepair,
    after: JsonView,
    findings: Seq<JsonView>,
    i: int,
    file: Seq<char>,
    line: u64,
    side: Side,
)
    requires
        is_repaired(report, patch, changed, repair, done, after),
        field(after, "findings"@) == Some(JsonView::List(findings)),
        0 <= i < findings.len(),
        field(findings[i], "location"@) matches Some(location) && begins_at(
            location,
            file,
            line,
            side,
        ),
    ensures
        shown_lines(patch).contains_key(LineKey { file, line: line as nat, side }),
        exists|cleaned: Json, repaired: Json|
            cleaned@ == cleaned_report(report, patch, changed) && #[trigger] call_ensures(
                repair,
                (cleaned,),
                (repaired, done),
            ) && after == anchored_report(repaired@, shown_lines(patch)),
{
    lemma_place_names_differ();
    let shown = shown_lines(patch);
    let (cleaned, repaired) = choose|cleaned: Json, repaired: Json|
        {
            &&& cleaned@ == cleaned_report(report, patch, changed)
            &&& #[trigger] call_ensures(repair, (cleaned,), (repaired, done))
            &&& after == anchored_report(repaired@, shown)
        };
    if let Some(JsonView::List(before)) = field(repaired@, "findings"@) {
        assert(findings[i] == anchored(before[i], shown));
        crate::anchors::lemma_remaining_location_is_shown(before[i], shown);
        let location = field(findings[i], "location"@)->0;
        assert(crate::anchors::location_start(location) == Some(
            LineKey { file, line: line as nat, side },
        ));
    }
}

} // verus!
