//! The places in a patch that findings point at.
//!
//! A finding may name a file, a line and a side of the diff. A place that the patch does not show
//! is taken off the finding; the finding itself stays.

use vstd::prelude::*;
use vstd::slice::*;
use crate::diff_index::{
    DiffIndex, LineKey, Side, line_numbers_fit, range_names, shown_lines, side_named,
};
use crate::json::{
    Json, JsonView, field, list_field, text_field, unsigned_field, views, with_field,
    without_field,
};
use crate::text;

verus! {

// ---------------------------------------------------------------------------------------------
// Identifiers named in prose
// ---------------------------------------------------------------------------------------------

/// The pieces of a text between backticks: the first backtick opens a piece, the next one closes
/// it, and so on.
pub open spec fn quoted(s: Seq<char>) -> Seq<Seq<char>>
    decreases s.len(),
{
    let open = text::find_char(s, '`');
    if open >= s.len() {
        Seq::empty()
    } else {
        let rest = s.skip(open as int + 1);
        let close = text::find_char(rest, '`');
        if close >= rest.len() {
            Seq::empty()
        } else {
            seq![rest.take(close as int)] + quoted(rest.skip(close as int + 1))
        }
    }
}

/// A text without the call parentheses at its end.
pub open spec fn without_call(s: Seq<char>) -> Seq<char>
    decreases s.len(),
{
    let n = s.len() as int;
    if n >= 2 && s[n - 2] == '(' && s[n - 1] == ')' {
        without_call(s.take(n - 2))
    } else {
        s
    }
}

/// Whether a text is a C identifier.
pub open spec fn is_identifier(s: Seq<char>) -> bool {
    &&& s.len() > 0
    &&& !text::is_digit(s[0])
    &&& forall|i: int| 0 <= i < s.len() ==> text::is_ident_char(#[trigger] s[i])
}

/// The identifiers among the pieces, each once, in order of first appearance.
pub open spec fn identifiers_among(pieces: Seq<Seq<char>>) -> Seq<Seq<char>>
    decreases pieces.len(),
{
    if pieces.len() == 0 {
        Seq::empty()
    } else {
        let before = identifiers_among(pieces.drop_last());
        let name = without_call(text::trim(pieces.last()));
        if is_identifier(name) && !before.contains(name) {
            before.push(name)
        } else {
            before
        }
    }
}

/// The C identifiers that a text names in backticks.
pub open spec fn named_identifiers(s: Seq<char>) -> Seq<Seq<char>> {
    identifiers_among(quoted(s))
}

fn strip_call<'a>(s: &'a [char]) -> (r: &'a [char])
    ensures
        r@ == without_call(s@),
{
    let mut n: usize = s.len();
    assert(s@.take(n as int) == s@);
    while n >= 2 && s[n - 2] == '(' && s[n - 1] == ')'
        invariant
            n <= s@.len(),
            without_call(s@) == without_call(s@.take(n as int)),
        decreases n,
    {
        proof {
            let t = s@.take(n as int);
            assert(t.take(n - 2) == s@.take(n - 2));
        }
        n -= 2;
    }
    let r = slice_subrange(s, 0, n);
    assert(r@ == s@.take(n as int));
    r
}

fn names_like_c(s: &[char]) -> (r: bool)
    ensures
        r == is_identifier(s@),
{
    if s.len() == 0 || text::char_is_digit(s[0]) {
        return false;
    }
    let mut i: usize = 0;
    while i < s.len()
        invariant
            i <= s@.len(),
            forall|k: int| 0 <= k < i ==> text::is_ident_char(#[trigger] s@[k]),
        decreases s@.len() - i,
    {
        if !text::char_is_ident(s[i]) {
            return false;
        }
        i += 1;
    }
    true
}

/// The C identifiers that a text names in backticks, each once.
pub fn backticked_c_identifiers(s: &str) -> (r: Vec<String>)
    ensures
        text::texts(r@) == named_identifiers(s@),
{
    let chars = text::chars_of(s);
    let all = chars.as_slice();
    let mut out: Vec<String> = Vec::new();
    let mut at: usize = 0;
    let ghost mut done: Seq<Seq<char>> = Seq::empty();
    assert(all@.skip(0) == s@);
    loop
        invariant
            all@ == s@,
            at <= all@.len(),
            quoted(s@) == done + quoted(s@.skip(at as int)),
            text::texts(out@) == identifiers_among(done),
        decreases all@.len() - at,
    {
        let ghost here = s@.skip(at as int);
        let open = text::find_from(all, '`', at);
        if open >= all.len() {
            assert(quoted(s@) == done);
            return out;
        }
        let ghost rest = here.skip(open - at + 1);
        assert(rest == s@.skip(open + 1));
        let close = text::find_from(all, '`', open + 1);
        if close >= all.len() {
            assert(quoted(s@) == done);
            return out;
        }
        let piece = slice_subrange(all, open + 1, close);
        let name = strip_call(text::trim_chars(piece));
        proof {
            assert(piece@ == rest.take(close - open - 1));
            assert(rest.skip(close - open) == s@.skip(close + 1));
            let pieces = done.push(piece@);
            assert(pieces.drop_last() == done);
            assert(quoted(s@) == pieces + quoted(s@.skip(close + 1)));
            done = pieces;
        }
        if names_like_c(name) {
            let name = text::string_of(name);
            if !text::contains_text(out.as_slice(), name.as_str()) {
                let ghost before = text::texts(out@);
                out.push(name);
                assert(text::texts(out@) == before.push(name@));
            }
        }
        at = close + 1;
    }
}

/// What a text names in backticks are C identifiers, and none is listed twice.
pub proof fn lemma_named_identifiers(s: Seq<char>)
    ensures
        named_identifiers(s).no_duplicates(),
        forall|i: int|
            0 <= i < named_identifiers(s).len() ==> is_identifier(#[trigger] named_identifiers(s)[i]),
{
    lemma_identifiers_among(quoted(s));
}

proof fn lemma_identifiers_among(pieces: Seq<Seq<char>>)
    ensures
        identifiers_among(pieces).no_duplicates(),
        forall|i: int|
            0 <= i < identifiers_among(pieces).len() ==> is_identifier(
                #[trigger] identifiers_among(pieces)[i],
            ),
    decreases pieces.len(),
{
    if pieces.len() > 0 {
        lemma_identifiers_among(pieces.drop_last());
    }
}

// ---------------------------------------------------------------------------------------------
// Locations
// ---------------------------------------------------------------------------------------------

/// A report with each of its findings put through `f`; without a list of findings it stays as it is.
pub open spec fn with_each_finding(report: JsonView, f: spec_fn(JsonView) -> JsonView) -> JsonView {
    match list_field(report, "findings"@) {
        Some(findings) => with_field(
            report,
            "findings"@,
            JsonView::List(findings.map_values(f)),
        ),
        None => report,
    }
}

/// The file that a finding's location names.
pub open spec fn location_file(finding: JsonView) -> Option<Seq<char>> {
    match field(finding, "location"@) {
        Some(location) => text_field(location, "file"@),
        None => None,
    }
}

/// A finding without a location in a file that the patch does not change.
pub open spec fn in_changed_file(finding: JsonView, changed: Seq<Seq<char>>) -> JsonView {
    match location_file(finding) {
        Some(file) if !changed.contains(file) => without_field(finding, "location"@),
        _ => finding,
    }
}

/// The side that a location names, the new one unless it says otherwise.
pub open spec fn location_side(location: JsonView) -> Side {
    match text_field(location, "side"@) {
        Some(side) => side_named(side),
        None => side_named("RIGHT"@),
    }
}

/// The line of a diff that a location starts on, where it names a file and a line.
pub open spec fn location_start(location: JsonView) -> Option<LineKey> {
    match (text_field(location, "file"@), unsigned_field(location, "line"@)) {
        (Some(file), Some(line)) if file.len() > 0 => Some(
            LineKey { file, line: line as nat, side: location_side(location) },
        ),
        _ => None,
    }
}

/// A location without an end on a line that is not shown.
pub open spec fn with_shown_end(
    location: JsonView,
    start: LineKey,
    shown: Map<LineKey, Seq<char>>,
) -> JsonView {
    match unsigned_field(location, "line_end"@) {
        Some(end) if !shown.contains_key(LineKey { line: end as nat, ..start }) => without_field(
            location,
            "line_end"@,
        ),
        _ => location,
    }
}

/// The last line of a location that starts on `line`.
pub open spec fn location_end(location: JsonView, line: nat) -> nat {
    match unsigned_field(location, "line_end"@) {
        Some(end) => end as nat,
        None => line,
    }
}

/// Whether the lines of a location mention what the finding's problem names in backticks. A
/// problem that names nothing is mentioned anywhere.
pub open spec fn mentions_problem(
    finding: JsonView,
    location: JsonView,
    start: LineKey,
    shown: Map<LineKey, Seq<char>>,
) -> bool {
    match text_field(finding, "problem"@) {
        Some(problem) => {
            ||| named_identifiers(problem).len() == 0
            ||| range_names(
                shown,
                start.file,
                start.line,
                location_end(location, start.line),
                start.side,
                named_identifiers(problem),
            )
        },
        None => true,
    }
}

/// What remains of a finding's location where only the given lines are shown. A location that
/// names no file or no line is left alone.
pub open spec fn kept_location(
    finding: JsonView,
    location: JsonView,
    shown: Map<LineKey, Seq<char>>,
) -> Option<JsonView> {
    match location_start(location) {
        None => Some(location),
        Some(start) => {
            let kept = with_shown_end(location, start, shown);
            if shown.contains_key(start) && mentions_problem(finding, kept, start, shown) {
                Some(kept)
            } else {
                None
            }
        },
    }
}

/// A finding with what remains of its location.
pub open spec fn anchored(finding: JsonView, shown: Map<LineKey, Seq<char>>) -> JsonView {
    match field(finding, "location"@) {
        None => finding,
        Some(location) => match kept_location(finding, location, shown) {
            Some(kept) => with_field(finding, "location"@, kept),
            None => without_field(finding, "location"@),
        },
    }
}

/// A report whose findings point only into changed files.
pub open spec fn in_changed_files(report: JsonView, changed: Seq<Seq<char>>) -> JsonView {
    with_each_finding(report, |f: JsonView| in_changed_file(f, changed))
}

/// A report whose findings point only at shown lines.
pub open spec fn anchored_report(report: JsonView, shown: Map<LineKey, Seq<char>>) -> JsonView {
    with_each_finding(report, |f: JsonView| anchored(f, shown))
}

fn keep_in_changed_file(finding: &Json, changed: &[String]) -> (r: Json)
    ensures
        r@ == in_changed_file(finding@, text::texts(changed@)),
{
    let mut r = finding.clone();
    if let Some(location) = finding.get("location") {
        if let Some(file) = location.get_str("file") {
            if !text::contains_text(changed, file) {
                r.remove("location");
            }
        }
    }
    r
}

/// Drops the location of each finding whose file the patch does not change. The finding stays:
/// its text still has review signal.
pub fn drop_hallucinated_locations(report: &mut Json, changed: &[String])
    ensures
        final(report)@ == in_changed_files(old(report)@, text::texts(changed@)),
{
    let kept: Vec<Json> = match report.get_list("findings") {
        None => {
            return;
        },
        Some(findings) => {
            let mut kept: Vec<Json> = Vec::new();
            let mut i: usize = 0;
            while i < findings.len()
                invariant
                    i <= findings@.len(),
                    kept@.len() == i,
                    forall|k: int|
                        0 <= k < i ==> (#[trigger] kept@[k])@ == in_changed_file(
                            findings@[k]@,
                            text::texts(changed@),
                        ),
                decreases findings@.len() - i,
            {
                let next = keep_in_changed_file(&findings[i], changed);
                kept.push(next);
                i += 1;
            }
            assert(views(kept@) =~= views(findings@).map_values(
                |f: JsonView| in_changed_file(f, text::texts(changed@)),
            ));
            kept
        },
    };
    report.set("findings", Json::list(kept));
}

fn keep_anchored(finding: &Json, index: &DiffIndex) -> (r: Json)
    ensures
        r@ == anchored(finding@, index@),
{
    let location = match finding.get("location") {
        None => {
            return finding.clone();
        },
        Some(location) => location,
    };
    let kept = keep_location(finding, location, index);
    let mut r = finding.clone();
    match kept {
        Some(kept) => {
            r.set("location", kept);
        },
        None => {
            r.remove("location");
        },
    }
    r
}

fn keep_location(finding: &Json, location: &Json, index: &DiffIndex) -> (r: Option<Json>)
    ensures
        match r {
            Some(kept) => kept_location(finding@, location@, index@) == Some(kept@),
            None => kept_location(finding@, location@, index@) is None,
        },
{
    let (file, line): (String, u64) = match (location.get_str("file"), location.get_u64("line")) {
        (Some(file), Some(line)) => {
            if text::is_empty(file) {
                return Some(location.clone());
            }
            (text::copy_text(file), line)
        },
        _ => {
            return Some(location.clone());
        },
    };
    let side = match location.get_str("side") {
        Some(side) => Side::from_str(side),
        None => Side::from_str("RIGHT"),
    };
    let ghost start = LineKey { file: file@, line: line as nat, side };
    assert(location_start(location@) == Some(start));
    if !index.contains(file.as_str(), line, side) {
        return None;
    }
    let mut kept = location.clone();
    if let Some(end) = location.get_u64("line_end") {
        if !index.contains(file.as_str(), end, side) {
            kept.remove("line_end");
        }
    }
    assert(kept@ == with_shown_end(location@, start, index@));
    if let Some(problem) = finding.get_str("problem") {
        let identifiers = backticked_c_identifiers(problem);
        assert(text::texts(identifiers@).len() == identifiers@.len());
        if identifiers.len() > 0 {
            let end: u64 = match kept.get_u64("line_end") {
                Some(end) => end,
                None => line,
            };
            if !index.range_contains_identifier(
                file.as_str(),
                line,
                end,
                side,
                identifiers.as_slice(),
            ) {
                return None;
            }
        }
    }
    Some(kept)
}

/// Drops the locations, or just the ends of locations, that are not on a line that the patch shows.
/// A location that is on such a line, but mentions none of the identifiers that the finding's
/// problem names in backticks, is dropped too. The finding stays.
pub fn drop_unanchored_locations(report: &mut Json, index: &DiffIndex)
    ensures
        final(report)@ == anchored_report(old(report)@, index@),
{
    let kept: Vec<Json> = match report.get_list("findings") {
        None => {
            return;
        },
        Some(findings) => {
            let mut kept: Vec<Json> = Vec::new();
            let mut i: usize = 0;
            while i < findings.len()
                invariant
                    i <= findings@.len(),
                    kept@.len() == i,
                    forall|k: int|
                        0 <= k < i ==> (#[trigger] kept@[k])@ == anchored(findings@[k]@, index@),
                decreases findings@.len() - i,
            {
                let next = keep_anchored(&findings[i], index);
                kept.push(next);
                i += 1;
            }
            assert(views(kept@) =~= views(findings@).map_values(|f: JsonView| anchored(f, index@)));
            kept
        },
    };
    report.set("findings", Json::list(kept));
}

/// How many concerns or findings a repair gave another location, and how many it dropped.
#[derive(Debug, Clone, Copy, PartialEq, Eq, Structural)]
pub struct MessageConcernRepair {
    pub relocated: usize,
    pub dropped: usize,
}

/// A report whose findings point only into changed files and at shown lines.
pub open spec fn cleaned_report(
    report: JsonView,
    patch: Seq<char>,
    changed: Seq<Seq<char>>,
) -> JsonView {
    anchored_report(in_changed_files(report, changed), shown_lines(patch))
}

/// Whether a report is what the repair makes of the cleaned one, with the locations that the repair
/// puts in held to the patch.
pub open spec fn is_repaired<F: Fn(Json) -> (Json, MessageConcernRepair)>(
    report: JsonView,
    patch: Seq<char>,
    changed: Seq<Seq<char>>,
    repair: F,
    done: MessageConcernRepair,
    after: JsonView,
) -> bool {
    exists|cleaned: Json, repaired: Json|
        {
            &&& cleaned@ == cleaned_report(report, patch, changed)
            &&& #[trigger] call_ensures(repair, (cleaned,), (repaired, done))
            &&& after == anchored_report(repaired@, shown_lines(patch))
        }
}

/// Takes off the locations that are wrong by the patch, so that the repair finds them missing, and
/// holds to the patch those that the repair puts in.
pub fn cleanup_repair_and_validate_findings<F: Fn(Json) -> (Json, MessageConcernRepair)>(
    report: &mut Json,
    patch: &str,
    changed: &[String],
    repair: &F,
) -> (r: MessageConcernRepair)
    requires
        line_numbers_fit(patch@),
        forall|report: Json| #[trigger] call_requires(*repair, (report,)),
    ensures
        is_repaired(old(report)@, patch@, text::texts(changed@), *repair, r, final(report)@),
{
    drop_hallucinated_locations(report, changed);
    let index = DiffIndex::from_unified_diff(patch);
    drop_unanchored_locations(report, &index);
    let cleaned = report.clone();
    let (repaired, done) = repair(cleaned);
    assert(call_ensures(*repair, (cleaned,), (repaired, done)));
    *report = repaired;
    drop_unanchored_locations(report, &index);
    done
}

// ---------------------------------------------------------------------------------------------
// Laws
// ---------------------------------------------------------------------------------------------

/// Whether two findings differ at most in their locations.
pub open spec fn same_but_location(a: JsonView, b: JsonView) -> bool {
    without_field(a, "location"@) == without_field(b, "location"@)
}

/// Taking off a location changes nothing else of a finding, and no finding gains a location.
pub proof fn lemma_finding_survives(
    finding: JsonView,
    changed: Seq<Seq<char>>,
    shown: Map<LineKey, Seq<char>>,
)
    ensures
        same_but_location(in_changed_file(finding, changed), finding),
        same_but_location(anchored(finding, shown), finding),
        field(finding, "location"@) is None ==> in_changed_file(finding, changed) == finding
            && anchored(finding, shown) == finding,
{
    if let JsonView::Object(m) = finding {
        let name = "location"@;
        assert(m.remove(name).remove(name) =~= m.remove(name));
        if let Some(location) = field(finding, name) {
            if let Some(kept) = kept_location(finding, location, shown) {
                assert(m.insert(name, kept).remove(name) =~= m.remove(name));
            }
        }
    }
}

/// Every finding of a report stays, at its place, whatever happens to its location.
pub proof fn lemma_findings_survive(
    report: JsonView,
    changed: Seq<Seq<char>>,
    shown: Map<LineKey, Seq<char>>,
)
    ensures
        match list_field(report, "findings"@) {
            None => in_changed_files(report, changed) == report && anchored_report(report, shown)
                == report,
            Some(before) => {
                &&& list_field(in_changed_files(report, changed), "findings"@) matches Some(after)
                &&& after.len() == before.len()
                &&& forall|i: int|
                    0 <= i < before.len() ==> same_but_location(#[trigger] after[i], before[i])
            },
        },
        list_field(report, "findings"@) matches Some(before) ==> {
            &&& list_field(anchored_report(report, shown), "findings"@) matches Some(after)
            &&& after.len() == before.len()
            &&& forall|i: int|
                0 <= i < before.len() ==> same_but_location(#[trigger] after[i], before[i])
        },
{
    if let Some(before) = list_field(report, "findings"@) {
        assert forall|i: int| 0 <= i < before.len() implies same_but_location(
            in_changed_file(#[trigger] before[i], changed),
            before[i],
        ) && same_but_location(anchored(before[i], shown), before[i]) by {
            lemma_finding_survives(before[i], changed, shown);
        }
        let f = |f: JsonView| in_changed_file(f, changed);
        let g = |f: JsonView| anchored(f, shown);
        assert forall|i: int| 0 <= i < before.len() implies same_but_location(
            #[trigger] before.map_values(f)[i],
            before[i],
        ) by {
            assert(before.map_values(f)[i] == in_changed_file(before[i], changed));
        }
        assert forall|i: int| 0 <= i < before.len() implies same_but_location(
            #[trigger] before.map_values(g)[i],
            before[i],
        ) by {
            assert(before.map_values(g)[i] == anchored(before[i], shown));
        }
    }
}

/// A location that remains after the check of the files lies in a changed file.
pub proof fn lemma_remaining_file_is_changed(finding: JsonView, changed: Seq<Seq<char>>)
    ensures
        location_file(in_changed_file(finding, changed)) matches Some(file) ==> changed.contains(
            file,
        ),
{
}

/// Whether a location points only at shown lines: its start is shown, and so is its end.
/// A location that names no file or no line points at nothing.
pub open spec fn points_at_shown(location: JsonView, shown: Map<LineKey, Seq<char>>) -> bool {
    location_start(location) matches Some(start) ==> {
        &&& shown.contains_key(start)
        &&& unsigned_field(location, "line_end"@) matches Some(end) ==> shown.contains_key(
            LineKey { line: end as nat, ..start },
        )
    }
}

/// A location that remains after the check of the lines points only at shown lines, and these
/// mention what the problem names.
pub proof fn lemma_remaining_location_is_shown(finding: JsonView, shown: Map<LineKey, Seq<char>>)
    ensures
        field(anchored(finding, shown), "location"@) matches Some(location) ==> {
            &&& points_at_shown(location, shown)
            &&& location_start(location) matches Some(start) ==> mentions_problem(
                finding,
                location,
                start,
                shown,
            )
        },
{
    if let Some(location) = field(finding, "location"@) {
        lemma_end_leaves_start(location, shown);
    }
}

proof fn lemma_end_leaves_start(location: JsonView, shown: Map<LineKey, Seq<char>>)
    ensures
        location_start(location) matches Some(start) ==> {
            let kept = with_shown_end(location, start, shown);
            &&& location_start(kept) == Some(start)
            &&& with_shown_end(kept, start, shown) == kept
        },
{
    reveal_strlit("file");
    reveal_strlit("line");
    reveal_strlit("side");
    reveal_strlit("line_end");
    let end = "line_end"@;
    assert("file"@.len() != end.len());
    assert("line"@.len() != end.len());
    assert("side"@.len() != end.len());
    if let JsonView::Object(m) = location {
        assert(m.remove(end).remove(end) =~= m.remove(end));
    }
}

/// A finding whose location was checked is left alone by the same check.
pub proof fn lemma_anchoring_a_finding_twice(finding: JsonView, shown: Map<LineKey, Seq<char>>)
    ensures
        anchored(anchored(finding, shown), shown) == anchored(finding, shown),
{
    if let JsonView::Object(m) = finding {
        let name = "location"@;
        if let Some(location) = field(finding, name) {
            lemma_end_leaves_start(location, shown);
            if let Some(kept) = kept_location(finding, location, shown) {
                let once = with_field(finding, name, kept);
                assert(m.insert(name, kept).insert(name, kept) =~= m.insert(name, kept));
                reveal_strlit("problem");
                reveal_strlit("location");
                assert("problem"@.len() != name.len());
                assert(text_field(once, "problem"@) == text_field(finding, "problem"@));
            }
        }
    }
}

/// Whatever locations a report held, those that remain after the check of the lines point only at
/// shown lines. No repair of a report can leave an invalid location behind that check.
pub proof fn lemma_no_invalid_location_remains(report: JsonView, shown: Map<LineKey, Seq<char>>)
    ensures
        list_field(anchored_report(report, shown), "findings"@) matches Some(findings) ==> (forall|
            i: int,
        |
            0 <= i < findings.len() ==> (field(#[trigger] findings[i], "location"@) matches Some(
                location,
            ) ==> points_at_shown(location, shown))),
{
    if let Some(before) = list_field(report, "findings"@) {
        let f = |f: JsonView| anchored(f, shown);
        let after = before.map_values(f);
        assert forall|i: int| 0 <= i < after.len() implies (field(
            #[trigger] after[i],
            "location"@,
        ) matches Some(location) ==> points_at_shown(location, shown)) by {
            lemma_remaining_location_is_shown(before[i], shown);
            assert(after[i] == anchored(before[i], shown));
        }
    }
}

/// A report whose locations were checked is left alone by the same check, so a second check
/// matters only for what was put in since the first one.
pub proof fn lemma_anchoring_twice(report: JsonView, shown: Map<LineKey, Seq<char>>)
    ensures
        anchored_report(anchored_report(report, shown), shown) == anchored_report(report, shown),
{
    if let JsonView::Object(m) = report {
        if let Some(findings) = list_field(report, "findings"@) {
            let f = |f: JsonView| anchored(f, shown);
            let once = findings.map_values(f);
            assert forall|i: int| 0 <= i < findings.len() implies #[trigger] once.map_values(f)[i]
                == once[i] by {
                lemma_anchoring_a_finding_twice(findings[i], shown);
            }
            assert(once.map_values(f) =~= once);
            let name = "findings"@;
            let list = JsonView::List(once);
            assert(m.insert(name, list).insert(name, list) =~= m.insert(name, list));
        }
    }
}

} // verus!
