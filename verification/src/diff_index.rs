//! Parsed-hunk lookup for unified diffs.
//!
//! An index is built once per commit from the patch text. `contains(file, line, side)` tells
//! whether a location lands on a line that appears in the diff (added, removed or context), so
//! that anchors which do not can be dropped.
//!
//! Context lines belong to both sides: each is indexed once under `Right` with the new file's
//! line number and once under `Left` with the old file's line number.

use std::collections::HashMap;
use vstd::prelude::*;
use vstd::slice::*;

use crate::text;

verus! {

broadcast use vstd::std_specs::hash::group_hash_axioms;

/// The version of a file that a line number counts in: the old one (`Left`) or the new one.
#[derive(Debug, Clone, Copy, PartialEq, Eq, Hash, Structural)]
pub enum Side {
    Left,
    Right,
}

/// `LEFT` names the old version of a file, every other word the new one.
pub open spec fn side_named(s: Seq<char>) -> Side {
    if s == "LEFT"@ {
        Side::Left
    } else {
        Side::Right
    }
}

impl Side {
    pub fn from_str(s: &str) -> (r: Self)
        ensures
            r == side_named(s@),
    {
        if text::same_text(s, "LEFT") {
            Side::Left
        } else {
            Side::Right
        }
    }
}

// ---------------------------------------------------------------------------------------------
// The lines of a unified diff
// ---------------------------------------------------------------------------------------------

/// What a line inside a hunk is.
#[derive(Debug, Clone, Copy, PartialEq, Eq, Structural)]
pub enum HunkBodyLine {
    Addition,
    Deletion,
    Context,
    /// `\ No newline at end of file`: belongs to the hunk but counts on neither side.
    NoNewline,
}

/// What a line is inside a hunk that still has `old_left` old and `new_left` new lines to come;
/// nothing where the line is no part of that hunk. An empty line is a blank context line.
pub open spec fn hunk_body_line(line: Seq<char>, old_left: nat, new_left: nat) -> Option<
    HunkBodyLine,
> {
    if line.len() == 0 {
        if old_left > 0 && new_left > 0 {
            Some(HunkBodyLine::Context)
        } else {
            None
        }
    } else if line[0] == '+' && new_left > 0 {
        Some(HunkBodyLine::Addition)
    } else if line[0] == '-' && old_left > 0 {
        Some(HunkBodyLine::Deletion)
    } else if line[0] == ' ' && old_left > 0 && new_left > 0 {
        Some(HunkBodyLine::Context)
    } else if line[0] == '\\' {
        Some(HunkBodyLine::NoNewline)
    } else {
        None
    }
}

pub fn classify_hunk_body_line(line: &[char], old_remaining: u64, new_remaining: u64) -> (r: Option<
    HunkBodyLine,
>)
    ensures
        r == hunk_body_line(line@, old_remaining as nat, new_remaining as nat),
{
    if line.len() == 0 {
        if old_remaining > 0 && new_remaining > 0 {
            Some(HunkBodyLine::Context)
        } else {
            None
        }
    } else if line[0] == '+' && new_remaining > 0 {
        Some(HunkBodyLine::Addition)
    } else if line[0] == '-' && old_remaining > 0 {
        Some(HunkBodyLine::Deletion)
    } else if line[0] == ' ' && old_remaining > 0 && new_remaining > 0 {
        Some(HunkBodyLine::Context)
    } else if line[0] == '\\' {
        Some(HunkBodyLine::NoNewline)
    } else {
        None
    }
}

/// The start and the length in `START` or `START,LEN`; the length is 1 where it is left out.
pub open spec fn range_numbers(s: Seq<char>) -> Option<(nat, nat)> {
    let comma = text::find_char(s, ',') as int;
    let max = u64::MAX as nat;
    if comma < s.len() {
        match (text::parse_unsigned(s.take(comma), max), text::parse_unsigned(s.skip(comma + 1), max)) {
            (Some(start), Some(len)) => Some((start, len)),
            _ => None,
        }
    } else {
        match text::parse_unsigned(s, max) {
            Some(start) => Some((start, 1)),
            None => None,
        }
    }
}

pub fn parse_range(s: &[char]) -> (r: Option<(u64, u64)>)
    ensures
        match r {
            Some((start, len)) => range_numbers(s@) == Some((start as nat, len as nat)),
            None => range_numbers(s@) is None,
        },
{
    let comma = text::find_from(s, ',', 0);
    assert(s@.skip(0) == s@);
    let head = slice_subrange(s, 0, comma);
    assert(head@ == s@.take(comma as int));
    if comma < s.len() {
        let tail = slice_subrange(s, comma + 1, s.len());
        assert(tail@ == s@.skip(comma + 1));
        match (text::parse_u64(head), text::parse_u64(tail)) {
            (Some(start), Some(len)) => Some((start, len)),
            _ => None,
        }
    } else {
        assert(s@.take(comma as int) == s@);
        match text::parse_u64(head) {
            Some(start) => Some((start, 1)),
            None => None,
        }
    }
}

/// Where a hunk lies: its first line and its number of lines in the old and in the new file.
pub struct HunkRange {
    pub old_start: nat,
    pub old_len: nat,
    pub new_start: nat,
    pub new_len: nat,
}

/// The fields `A[,B]` and `C[,D]` of a line `@@ -A[,B] +C[,D] @@ ...`.
pub open spec fn hunk_fields(line: Seq<char>) -> Option<(Seq<char>, Seq<char>)> {
    match text::after_prefix(line, "@@ "@) {
        None => None,
        Some(rest) => {
            let first = text::find_char(rest, ' ') as int;
            let second = first + 1 + text::find_char(rest.skip(first + 1), ' ') as int;
            if first < rest.len() && second < rest.len() {
                match (
                    text::after_prefix(rest.take(first), "-"@),
                    text::after_prefix(rest.subrange(first + 1, second), "+"@),
                ) {
                    (Some(old), Some(new)) => Some((old, new)),
                    _ => None,
                }
            } else {
                None
            }
        },
    }
}

/// The ranges in `@@ -A[,B] +C[,D] @@ ...`.
pub open spec fn hunk_header(line: Seq<char>) -> Option<HunkRange> {
    match hunk_fields(line) {
        None => None,
        Some((old, new)) => match (range_numbers(old), range_numbers(new)) {
            (Some((old_start, old_len)), Some((new_start, new_len))) => Some(
                HunkRange { old_start, old_len, new_start, new_len },
            ),
            _ => None,
        },
    }
}

fn split_hunk_header<'a>(line: &'a [char]) -> (r: Option<(&'a [char], &'a [char])>)
    ensures
        match r {
            Some((old, new)) => hunk_fields(line@) == Some((old@, new@)),
            None => hunk_fields(line@) is None,
        },
{
    let rest = match text::strip_prefix(line, "@@ ") {
        Some(rest) => rest,
        None => return None,
    };
    let first = text::find_from(rest, ' ', 0);
    assert(rest@.skip(0) == rest@);
    if first == rest.len() {
        return None;
    }
    let second = text::find_from(rest, ' ', first + 1);
    if second == rest.len() {
        return None;
    }
    let old_field = slice_subrange(rest, 0, first);
    let new_field = slice_subrange(rest, first + 1, second);
    assert(old_field@ == rest@.take(first as int));
    match (text::strip_prefix(old_field, "-"), text::strip_prefix(new_field, "+")) {
        (Some(old), Some(new)) => Some((old, new)),
        _ => None,
    }
}

/// Reads `@@ -A[,B] +C[,D] @@ ...` as `(A, B, C, D)`.
pub fn parse_hunk_header(line: &[char]) -> (r: Option<(u64, u64, u64, u64)>)
    ensures
        match r {
            Some((a, b, c, d)) => hunk_header(line@) == Some(
                HunkRange {
                    old_start: a as nat,
                    old_len: b as nat,
                    new_start: c as nat,
                    new_len: d as nat,
                },
            ),
            None => hunk_header(line@) is None,
        },
{
    match split_hunk_header(line) {
        None => None,
        Some((old, new)) => match (parse_range(old), parse_range(new)) {
            (Some((a, b)), Some((c, d))) => Some((a, b, c, d)),
            _ => None,
        },
    }
}

/// The path in a `---` or `+++` header line, given what follows the marker: without white space
/// around it, without what follows a tab, without a leading `a/` or `b/`. Nothing for `/dev/null`
/// and for an empty path.
pub open spec fn diff_path(rest: Seq<char>) -> Option<Seq<char>> {
    let field = text::trim(rest);
    let raw = text::trim(field.take(text::find_char(field, '\t') as int));
    let cleaned = match text::after_prefix(raw, "a/"@) {
        Some(p) => p,
        None => match text::after_prefix(raw, "b/"@) {
            Some(p) => p,
            None => raw,
        },
    };
    if raw == "/dev/null"@ || cleaned.len() == 0 {
        None
    } else {
        Some(cleaned)
    }
}

pub fn parse_diff_path(rest: &[char]) -> (r: Option<String>)
    ensures
        text::opt_text(r) == diff_path(rest@),
{
    let field = text::trim_chars(rest);
    let tab = text::find_from(field, '\t', 0);
    assert(field@.skip(0) == field@);
    let head = slice_subrange(field, 0, tab);
    assert(head@ == field@.take(tab as int));
    let raw = text::trim_chars(head);
    let dev_null = text::chars_of("/dev/null");
    if text::same_chars(raw, dev_null.as_slice()) {
        return None;
    }
    let cleaned = match text::strip_prefix(raw, "a/") {
        Some(p) => p,
        None => match text::strip_prefix(raw, "b/") {
            Some(p) => p,
            None => raw,
        },
    };
    if cleaned.len() == 0 {
        None
    } else {
        Some(text::string_of(cleaned))
    }
}

// ---------------------------------------------------------------------------------------------
// Identifiers in a line
// ---------------------------------------------------------------------------------------------

/// Whether the text at `at..at + len` has no identifier character right before or right after it.
pub open spec fn stands_alone(text: Seq<char>, at: int, len: int) -> bool {
    &&& at == 0 || !text::is_ident_char(text[at - 1])
    &&& at + len == text.len() || !text::is_ident_char(text[at + len])
}

/// Whether `ident` occurs at `at`.
pub open spec fn occurs_at(text: Seq<char>, ident: Seq<char>, at: int) -> bool {
    0 <= at && at + ident.len() <= text.len() && text.subrange(at, at + ident.len()) == ident
}

/// Whether one of the disjoint occurrences of `ident` from `from` on stands alone; they are found
/// from left to right, each search starting behind the occurrence before.
pub open spec fn names_from(text: Seq<char>, ident: Seq<char>, from: int) -> bool
    decreases text.len() + 1 - from,
{
    if from < 0 || from + ident.len() > text.len() {
        false
    } else if occurs_at(text, ident, from) {
        stands_alone(text, from, ident.len() as int) || names_from(
            text,
            ident,
            from + if ident.len() > 0 { ident.len() as int } else { 1 },
        )
    } else {
        names_from(text, ident, from + 1)
    }
}

/// Whether `text` contains `ident` as a C identifier of its own.
pub open spec fn names_identifier(text: Seq<char>, ident: Seq<char>) -> bool {
    names_from(text, ident, 0)
}

pub fn contains_c_identifier(text: &str, ident: &str) -> (r: bool)
    ensures
        r == names_identifier(text@, ident@),
{
    let t = text::chars_of(text);
    let id = text::chars_of(ident);
    if id.len() > t.len() {
        return false;
    }
    let last = t.len() - id.len();
    let mut at: usize = 0;
    while at <= last
        invariant
            t@ == text@,
            id@ == ident@,
            last + id.len() == t.len(),
            names_from(t@, id@, at as int) == names_identifier(text@, ident@),
            at <= t@.len() + 1,
        decreases t@.len() + 1 - at,
    {
        let here = slice_subrange(t.as_slice(), at, at + id.len());
        if text::same_chars(here, id.as_slice()) {
            let before_free = at == 0 || !text::char_is_ident(t[at - 1]);
            let after_free = at + id.len() == t.len() || !text::char_is_ident(t[at + id.len()]);
            if before_free && after_free {
                return true;
            }
            if at == t.len() {
                assert(!names_from(t@, id@, at + 1));
                return false;
            }
            at = at + if id.len() > 0 {
                id.len()
            } else {
                1
            };
        } else {
            assert(id.len() > 0) by {
                assert(id@.len() == 0 ==> here@ == id@);
            }
            at += 1;
        }
    }
    false
}

/// A name made of identifier characters is found exactly where some occurrence of it stands
/// alone, overlapping occurrences included.
pub proof fn lemma_names_identifier(text: Seq<char>, ident: Seq<char>)
    requires
        ident.len() > 0,
        forall|i: int| 0 <= i < ident.len() ==> text::is_ident_char(#[trigger] ident[i]),
    ensures
        names_identifier(text, ident) <==> exists|at: int| #[trigger]
            occurs_at(text, ident, at) && stands_alone(text, at, ident.len() as int),
{
    lemma_names_from(text, ident, 0);
}

proof fn lemma_names_from(text: Seq<char>, ident: Seq<char>, from: int)
    requires
        0 <= from,
        ident.len() > 0,
        forall|i: int| 0 <= i < ident.len() ==> text::is_ident_char(#[trigger] ident[i]),
    ensures
        names_from(text, ident, from) <==> exists|at: int|
            from <= at && #[trigger] occurs_at(text, ident, at) && stands_alone(
                text,
                at,
                ident.len() as int,
            ),
    decreases text.len() - from,
{
    let n = ident.len() as int;
    if from + n <= text.len() {
        let next = if occurs_at(text, ident, from) {
            from + n
        } else {
            from + 1
        };
        lemma_names_from(text, ident, next);
        if occurs_at(text, ident, from) && !stands_alone(text, from, n) {
            assert forall|at: int|
                from <= at < next && #[trigger] occurs_at(text, ident, at) implies !stands_alone(
                text,
                at,
                n,
            ) by {
                if at > from {
                    assert(text.subrange(from, from + n)[at - 1 - from] == text[at - 1]);
                    assert(text::is_ident_char(ident[at - 1 - from]));
                }
            }
        }
        if names_from(text, ident, from) {
            if occurs_at(text, ident, from) && stands_alone(text, from, n) {
                assert(from <= from);
            }
        }
    }
}

// ---------------------------------------------------------------------------------------------
// What a diff indexes
// ---------------------------------------------------------------------------------------------

/// A line of one version of a file.
pub struct LineKey {
    pub file: Seq<char>,
    pub line: nat,
    pub side: Side,
}

/// A position inside a hunk: the numbers of the next old and the next new line, and how many of
/// each are still to come.
pub struct Cursor {
    pub old_line: nat,
    pub old_left: nat,
    pub new_line: nat,
    pub new_left: nat,
}

/// The position behind a hunk line of the given kind.
pub open spec fn advance(c: Cursor, kind: HunkBodyLine) -> Cursor {
    match kind {
        HunkBodyLine::Addition => Cursor {
            new_line: c.new_line + 1,
            new_left: (c.new_left - 1) as nat,
            ..c
        },
        HunkBodyLine::Deletion => Cursor {
            old_line: c.old_line + 1,
            old_left: (c.old_left - 1) as nat,
            ..c
        },
        HunkBodyLine::Context => Cursor {
            old_line: c.old_line + 1,
            old_left: (c.old_left - 1) as nat,
            new_line: c.new_line + 1,
            new_left: (c.new_left - 1) as nat,
        },
        HunkBodyLine::NoNewline => c,
    }
}

/// What a line is, given the position inside the hunk that is open before it.
pub open spec fn kind_at(cursor: Option<Cursor>, line: Seq<char>) -> Option<HunkBodyLine> {
    match cursor {
        Some(c) => hunk_body_line(line, c.old_left, c.new_left),
        None => None,
    }
}

/// The position at the start of the hunk that a header line opens.
pub open spec fn opened_hunk(line: Seq<char>) -> Option<Cursor> {
    match hunk_header(line) {
        Some(h) => Some(
            Cursor {
                old_line: h.old_start,
                old_left: h.old_len,
                new_line: h.new_start,
                new_left: h.new_len,
            },
        ),
        None => None,
    }
}

/// The position inside the hunk that the first `k` lines leave open, if they leave one open. A
/// hunk is opened by its header and closed by the first line that is no part of it.
pub open spec fn cursor_after(lines: Seq<Seq<char>>, k: int) -> Option<Cursor>
    decreases k,
{
    if k <= 0 {
        None
    } else {
        let before = cursor_after(lines, k - 1);
        match kind_at(before, lines[k - 1]) {
            Some(kind) => Some(advance(before->0, kind)),
            None => opened_hunk(lines[k - 1]),
        }
    }
}

/// What line `k` is, where it is a hunk line.
pub open spec fn body_kind(lines: Seq<Seq<char>>, k: int) -> Option<HunkBodyLine> {
    kind_at(cursor_after(lines, k), lines[k])
}

/// The path that the header lines among the first `k` lines give to one version of the file:
/// `diff --git` clears it, `---` gives the old one, `+++` the new one. Hunk lines are no headers,
/// whatever they look like.
pub open spec fn path_after(lines: Seq<Seq<char>>, k: int, side: Side) -> Option<Seq<char>>
    decreases k,
{
    if k <= 0 {
        None
    } else {
        let before = path_after(lines, k - 1, side);
        let line = lines[k - 1];
        if body_kind(lines, k - 1) is Some {
            before
        } else if text::has_prefix(line, "diff --git "@) {
            None
        } else if side == Side::Left && text::has_prefix(line, "--- "@) {
            diff_path(line.skip(4))
        } else if side == Side::Right && text::has_prefix(line, "+++ "@) {
            diff_path(line.skip(4))
        } else {
            before
        }
    }
}

/// The map with one more line, where the file has a path.
pub open spec fn with_line(
    m: Map<LineKey, Seq<char>>,
    path: Option<Seq<char>>,
    line: nat,
    side: Side,
    text: Seq<char>,
) -> Map<LineKey, Seq<char>> {
    match path {
        Some(file) => m.insert(LineKey { file, line, side }, text),
        None => m,
    }
}

/// The text of a hunk line, without the character that marks its kind.
pub open spec fn body_text(line: Seq<char>) -> Seq<char> {
    if line.len() > 0 {
        line.skip(1)
    } else {
        line
    }
}

/// The lines that the first `k` lines of a diff show, each with its text.
pub open spec fn lines_after(lines: Seq<Seq<char>>, k: int) -> Map<LineKey, Seq<char>>
    decreases k,
{
    if k <= 0 {
        Map::empty()
    } else {
        let before = lines_after(lines, k - 1);
        let old_path = path_after(lines, k - 1, Side::Left);
        let new_path = path_after(lines, k - 1, Side::Right);
        let c = cursor_after(lines, k - 1)->0;
        let text = body_text(lines[k - 1]);
        match body_kind(lines, k - 1) {
            Some(HunkBodyLine::Addition) => with_line(
                before,
                new_path,
                c.new_line,
                Side::Right,
                text,
            ),
            Some(HunkBodyLine::Deletion) => with_line(
                before,
                old_path,
                c.old_line,
                Side::Left,
                text,
            ),
            Some(HunkBodyLine::Context) => with_line(
                with_line(before, new_path, c.new_line, Side::Right, text),
                old_path,
                c.old_line,
                Side::Left,
                text,
            ),
            _ => before,
        }
    }
}

/// The lines that a diff shows, each with its text.
pub open spec fn shown_lines(diff: Seq<char>) -> Map<LineKey, Seq<char>> {
    lines_after(text::lines(diff), text::lines(diff).len() as int)
}

/// Whether the line numbers of a position fit into 64 bits.
pub open spec fn cursor_fits(cursor: Option<Cursor>) -> bool {
    match cursor {
        Some(c) => c.old_line <= u64::MAX && c.new_line <= u64::MAX,
        None => true,
    }
}

/// Whether counting through the hunks of a diff never leaves the 64-bit range.
pub open spec fn line_numbers_fit(diff: Seq<char>) -> bool {
    forall|k: int|
        0 <= k <= text::lines(diff).len() ==> cursor_fits(
            #[trigger] cursor_after(text::lines(diff), k),
        )
}

// ---------------------------------------------------------------------------------------------
// The index
// ---------------------------------------------------------------------------------------------

/// One indexed line among those with the same number.
#[derive(Debug, Clone)]
struct IndexedLine {
    file: String,
    side: Side,
    text: String,
}

/// The lines that a diff shows, each with its text. They are kept by line number.
#[derive(Debug, Clone)]
pub struct DiffIndex {
    by_number: HashMap<u64, Vec<IndexedLine>>,
}

/// The text of the first entry for the given version of the given file.
spec fn find_entry(entries: Seq<IndexedLine>, file: Seq<char>, side: Side) -> Option<Seq<char>>
    decreases entries.len(),
{
    if entries.len() == 0 {
        None
    } else if entries[0].file@ == file && entries[0].side == side {
        Some(entries[0].text@)
    } else {
        find_entry(entries.skip(1), file, side)
    }
}

proof fn lemma_find_entry(entries: Seq<IndexedLine>, file: Seq<char>, side: Side, i: int)
    requires
        0 <= i <= entries.len(),
        forall|j: int| 0 <= j < i ==> !(entries[j].file@ == file && (#[trigger] entries[j]).side == side),
    ensures
        i < entries.len() && entries[i].file@ == file && entries[i].side == side ==> find_entry(
            entries,
            file,
            side,
        ) == Some(entries[i].text@),
        i == entries.len() ==> find_entry(entries, file, side) is None,
    decreases i,
{
    if i > 0 {
        let t = entries.skip(1);
        assert(!(entries[0].file@ == file && entries[0].side == side));
        assert forall|j: int| 0 <= j < i - 1 implies !(t[j].file@ == file && (#[trigger] t[j]).side
            == side) by {
            assert(t[j] == entries[j + 1]);
        }
        lemma_find_entry(t, file, side, i - 1);
    }
}

impl View for DiffIndex {
    type V = Map<LineKey, Seq<char>>;

    closed spec fn view(&self) -> Map<LineKey, Seq<char>> {
        Map::new(
            |k: LineKey|
                k.line <= u64::MAX && self.by_number@.contains_key(k.line as u64) && find_entry(
                    self.by_number@[k.line as u64]@,
                    k.file,
                    k.side,
                ) is Some,
            |k: LineKey| find_entry(self.by_number@[k.line as u64]@, k.file, k.side)->0,
        )
    }
}

fn find_indexed(entries: &Vec<IndexedLine>, file: &str, side: Side) -> (r: usize)
    ensures
        r <= entries@.len(),
        forall|j: int|
            0 <= j < r ==> !(entries@[j].file@ == file@ && (#[trigger] entries@[j]).side == side),
        r < entries@.len() ==> entries@[r as int].file@ == file@ && entries@[r as int].side == side,
{
    let name = file.to_owned();
    let mut i: usize = 0;
    while i < entries.len()
        invariant
            name@ == file@,
            i <= entries@.len(),
            forall|j: int|
                0 <= j < i ==> !(entries@[j].file@ == file@ && (#[trigger] entries@[j]).side == side),
        decreases entries@.len() - i,
    {
        if entries[i].side == side && entries[i].file == name {
            return i;
        }
        i += 1;
    }
    i
}

impl DiffIndex {
    pub fn new() -> (r: Self)
        ensures
            r@ == Map::<LineKey, Seq<char>>::empty(),
    {
        DiffIndex { by_number: HashMap::new() }
    }

    /// The text of a line, where it is indexed.
    fn lookup(&self, file: &str, line: u64, side: Side) -> (r: Option<&String>)
        ensures
            ({
                let key = LineKey { file: file@, line: line as nat, side };
                match r {
                    Some(t) => self@.contains_key(key) && self@[key] == t@,
                    None => !self@.contains_key(key),
                }
            }),
    {
        match self.by_number.get(&line) {
            None => None,
            Some(entries) => {
                let i = find_indexed(entries, file, side);
                proof {
                    lemma_find_entry(entries@, file@, side, i as int);
                }
                if i < entries.len() {
                    Some(&entries[i].text)
                } else {
                    None
                }
            },
        }
    }

    pub fn contains(&self, file: &str, line: u64, side: Side) -> (r: bool)
        ensures
            r == self@.contains_key(LineKey { file: file@, line: line as nat, side }),
    {
        self.lookup(file, line, side).is_some()
    }

    /// Indexes a line. A text that was indexed for it before is replaced, and no other line is
    /// touched.
    pub fn insert(&mut self, file: &str, line: u64, side: Side, text: &[char])
        ensures
            final(self)@ == old(self)@.insert(
                LineKey { file: file@, line: line as nat, side },
                text@,
            ),
    {
        let mut entries: Vec<IndexedLine> = match self.by_number.remove(&line) {
            Some(v) => v,
            None => Vec::new(),
        };
        let ghost before = entries@;
        let i = find_indexed(&entries, file, side);
        let entry = IndexedLine { file: file.to_owned(), side, text: text::string_of(text) };
        if i < entries.len() {
            entries.set(i, entry);
        } else {
            entries.push(entry);
        }
        proof {
            lemma_find_entry(before, file@, side, i as int);
            lemma_find_entry(entries@, file@, side, i as int);
            assert forall|f: Seq<char>, s: Side| !(f == file@ && s == side) implies find_entry(
                entries@,
                f,
                s,
            ) == find_entry(before, f, s) by {
                lemma_other_entry(before, entries@, f, s, i as int);
            }
        }
        self.by_number.insert(line, entries);
        proof {
            let key = LineKey { file: file@, line: line as nat, side };
            let want = old(self)@.insert(key, text@);
            assert forall|k: LineKey|
                #![trigger self@.dom().contains(k)]
                #![trigger want.dom().contains(k)]
                #![trigger self@[k]]
                #![trigger want[k]]
                self@.dom().contains(k) == want.dom().contains(k) && (self@.dom().contains(k)
                    ==> self@[k] == want[k]) by {
                if k.line == line as nat {
                    if k.file == file@ && k.side == side {
                        assert(k == key);
                    } else {
                        assert(find_entry(entries@, k.file, k.side) == find_entry(
                            before,
                            k.file,
                            k.side,
                        ));
                    }
                }
            }
            assert(self@ =~= want);
        }
    }
}

proof fn lemma_other_entry(
    before: Seq<IndexedLine>,
    after: Seq<IndexedLine>,
    file: Seq<char>,
    side: Side,
    i: int,
)
    requires
        0 <= i < after.len(),
        !(after[i].file@ == file && after[i].side == side),
        after == before.push(after[i]) && i == before.len() || i < before.len() && after
            == before.update(i, after[i]) && !(before[i].file@ == file && before[i].side == side),
    ensures
        find_entry(after, file, side) == find_entry(before, file, side),
    decreases before.len(),
{
    if i == before.len() {
        if before.len() > 0 {
            assert(after.skip(1) == before.skip(1).push(after[i]));
            assert(after.skip(1)[i - 1] == after[i]);
            lemma_other_entry(before.skip(1), after.skip(1), file, side, i - 1);
        } else {
            assert(after.skip(1).len() == 0);
            assert(find_entry(after.skip(1), file, side) is None);
        }
    } else if i == 0 {
        assert(after.skip(1) == before.skip(1));
    } else {
        assert(after.skip(1) == before.skip(1).update(i - 1, after[i]));
        assert(after.skip(1)[i - 1] == after[i]);
        lemma_other_entry(before.skip(1), after.skip(1), file, side, i - 1);
    }
}


/// The 64-bit counters of a position inside a hunk.
#[derive(Clone, Copy)]
struct Counters {
    old_line: u64,
    old_left: u64,
    new_line: u64,
    new_left: u64,
}

spec fn counted(c: Option<Counters>) -> Option<Cursor> {
    match c {
        Some(c) => Some(
            Cursor {
                old_line: c.old_line as nat,
                old_left: c.old_left as nat,
                new_line: c.new_line as nat,
                new_left: c.new_left as nat,
            },
        ),
        None => None,
    }
}

fn open_hunk(line: &[char]) -> (r: Option<Counters>)
    ensures
        counted(r) == opened_hunk(line@),
{
    match parse_hunk_header(line) {
        Some((old_line, old_left, new_line, new_left)) => Some(
            Counters { old_line, old_left, new_line, new_left },
        ),
        None => None,
    }
}

fn kind_of(cursor: &Option<Counters>, line: &[char]) -> (r: Option<HunkBodyLine>)
    ensures
        r == kind_at(counted(*cursor), line@),
{
    match cursor {
        Some(c) => classify_hunk_body_line(line, c.old_left, c.new_left),
        None => None,
    }
}

/// The position behind a hunk line; nothing where a line number would leave the 64-bit range.
fn try_advance(c: Counters, kind: HunkBodyLine) -> (r: Option<Counters>)
    requires
        kind is Addition || kind is Context ==> c.new_left > 0,
        kind is Deletion || kind is Context ==> c.old_left > 0,
    ensures
        match r {
            Some(n) => counted(r) == Some(advance(counted(Some(c))->0, kind)),
            None => !cursor_fits(Some(advance(counted(Some(c))->0, kind))),
        },
{
    let (old, new) = match kind {
        HunkBodyLine::Addition => (false, true),
        HunkBodyLine::Deletion => (true, false),
        HunkBodyLine::Context => (true, true),
        HunkBodyLine::NoNewline => (false, false),
    };
    let mut n = c;
    if old {
        if n.old_line == u64::MAX {
            return None;
        }
        n.old_line = n.old_line + 1;
        n.old_left = n.old_left - 1;
    }
    if new {
        if n.new_line == u64::MAX {
            return None;
        }
        n.new_line = n.new_line + 1;
        n.new_left = n.new_left - 1;
    }
    Some(n)
}

/// The markers that begin header lines exclude one another, and none of them opens a hunk.
proof fn lemma_header_lines(line: Seq<char>)
    ensures
        "--- "@.len() == 4,
        "+++ "@.len() == 4,
        text::has_prefix(line, "diff --git "@) ==> !text::has_prefix(line, "--- "@)
            && !text::has_prefix(line, "+++ "@),
        text::has_prefix(line, "--- "@) ==> !text::has_prefix(line, "+++ "@),
        text::has_prefix(line, "diff --git "@) || text::has_prefix(line, "--- "@)
            || text::has_prefix(line, "+++ "@) ==> opened_hunk(line) is None,
{
    reveal_strlit("diff --git ");
    reveal_strlit("--- ");
    reveal_strlit("+++ ");
    reveal_strlit("@@ ");
    if text::has_prefix(line, "diff --git "@) {
        assert(line.take("diff --git "@.len() as int)[0] == line[0]);
    }
    if text::has_prefix(line, "--- "@) {
        assert(line.take(4)[0] == line[0]);
    }
    if text::has_prefix(line, "+++ "@) {
        assert(line.take(4)[0] == line[0]);
    }
    if text::has_prefix(line, "@@ "@) {
        assert(line.take(3)[0] == line[0]);
    }
}

impl DiffIndex {
    /// Whether counting through the hunks of a diff never leaves the 64-bit range.
    pub fn can_index(diff: &str) -> (r: bool)
        ensures
            r == line_numbers_fit(diff@),
    {
        let all = text::split_lines(diff);
        let ghost lines = text::lines(diff@);
        let mut cursor: Option<Counters> = None;
        let mut i: usize = 0;
        while i < all.len()
            invariant
                i <= all.len(),
                lines == text::lines(diff@),
                text::char_texts(all@) == lines,
                counted(cursor) == cursor_after(lines, i as int),
                forall|k: int| 0 <= k <= i ==> cursor_fits(#[trigger] cursor_after(lines, k)),
            decreases all.len() - i,
        {
            let line = all[i].as_slice();
            assert(line@ == lines[i as int]);
            let next = match kind_of(&cursor, line) {
                Some(kind) => {
                    let moved = try_advance(cursor.unwrap(), kind);
                    if moved.is_none() {
                        assert(!cursor_fits(cursor_after(lines, i + 1)));
                        return false;
                    }
                    moved
                },
                None => open_hunk(line),
            };
            assert(counted(next) == cursor_after(lines, i + 1));
            cursor = next;
            i += 1;
        }
        true
    }

    /// Indexes every hunk line of a unified diff, as `git show --no-color` or `git diff` print it.
    ///
    /// - Extended header lines (`diff --git`, `index ...`, `similarity index ...`) are skipped.
    /// - `--- old/path` and `+++ new/path` name the two versions separately, as renames and deleted
    ///   files need it; a version named `/dev/null` has no lines.
    /// - The ranges of the `@@` header decide how many lines a hunk has, so lines that look like
    ///   headers (`--- body`, `+++ body`) count as hunk lines where they stand in one.
    /// - A diff may hold several files, with or without `diff --git` lines.
    pub fn from_unified_diff(diff: &str) -> (r: Self)
        requires
            line_numbers_fit(diff@),
        ensures
            r@ == shown_lines(diff@),
    {
        let all = text::split_lines(diff);
        let ghost lines = text::lines(diff@);
        let mut idx = DiffIndex::new();
        let mut old_path: Option<String> = None;
        let mut new_path: Option<String> = None;
        let mut cursor: Option<Counters> = None;
        let mut i: usize = 0;
        while i < all.len()
            invariant
                i <= all.len(),
                lines == text::lines(diff@),
                text::char_texts(all@) == lines,
                line_numbers_fit(diff@),
                counted(cursor) == cursor_after(lines, i as int),
                text::opt_text(old_path) == path_after(lines, i as int, Side::Left),
                text::opt_text(new_path) == path_after(lines, i as int, Side::Right),
                idx@ == lines_after(lines, i as int),
            decreases all.len() - i,
        {
            let line = all[i].as_slice();
            assert(line@ == lines[i as int]);
            match kind_of(&cursor, line) {
                Some(kind) => {
                    let c = cursor.unwrap();
                    idx.insert_body_line(&old_path, &new_path, c, kind, line);
                    let next = try_advance(c, kind);
                    proof {
                        assert(cursor_after(lines, i + 1) == Some(
                            advance(counted(cursor)->0, kind),
                        ));
                        assert(cursor_fits(cursor_after(lines, i + 1)));
                    }
                    cursor = next;
                },
                None => {
                    proof {
                        lemma_header_lines(line@);
                    }
                    if text::strip_prefix(line, "diff --git ").is_some() {
                        old_path = None;
                        new_path = None;
                    } else if let Some(rest) = text::strip_prefix(line, "--- ") {
                        old_path = parse_diff_path(rest);
                    } else if let Some(rest) = text::strip_prefix(line, "+++ ") {
                        new_path = parse_diff_path(rest);
                    }
                    cursor = open_hunk(line);
                },
            }
            i += 1;
        }
        idx
    }

    fn insert_body_line(
        &mut self,
        old_path: &Option<String>,
        new_path: &Option<String>,
        c: Counters,
        kind: HunkBodyLine,
        line: &[char],
    )
        requires
            !(kind is Context) ==> line@.len() > 0,
        ensures
            final(self)@ == match kind {
                HunkBodyLine::Addition => with_line(
                    old(self)@,
                    text::opt_text(*new_path),
                    c.new_line as nat,
                    Side::Right,
                    body_text(line@),
                ),
                HunkBodyLine::Deletion => with_line(
                    old(self)@,
                    text::opt_text(*old_path),
                    c.old_line as nat,
                    Side::Left,
                    body_text(line@),
                ),
                HunkBodyLine::Context => with_line(
                    with_line(
                        old(self)@,
                        text::opt_text(*new_path),
                        c.new_line as nat,
                        Side::Right,
                        body_text(line@),
                    ),
                    text::opt_text(*old_path),
                    c.old_line as nat,
                    Side::Left,
                    body_text(line@),
                ),
                HunkBodyLine::NoNewline => old(self)@,
            },
    {
        let text = if line.len() > 0 {
            slice_subrange(line, 1, line.len())
        } else {
            line
        };
        assert(text@ == body_text(line@));
        match kind {
            HunkBodyLine::Addition => {
                if let Some(path) = new_path {
                    self.insert(path.as_str(), c.new_line, Side::Right, text);
                }
            },
            HunkBodyLine::Deletion => {
                if let Some(path) = old_path {
                    self.insert(path.as_str(), c.old_line, Side::Left, text);
                }
            },
            HunkBodyLine::Context => {
                if let Some(path) = new_path {
                    self.insert(path.as_str(), c.new_line, Side::Right, text);
                }
                if let Some(path) = old_path {
                    self.insert(path.as_str(), c.old_line, Side::Left, text);
                }
            },
            HunkBodyLine::NoNewline => {},
        }
    }

    /// Whether at least one of the identifiers occurs in the range of lines. This catches
    /// locations that are valid hunk coordinates but point at unrelated code.
    pub fn range_contains_identifier(
        &self,
        file: &str,
        start: u64,
        end: u64,
        side: Side,
        identifiers: &[String],
    ) -> (r: bool)
        ensures
            r == range_names(self@, file@, start as nat, end as nat, side, text::texts(identifiers@)),
    {
        if start > end {
            return false;
        }
        let mut line: u64 = start;
        loop
            invariant
                start <= line <= end,
                forall|n: nat|
                    start <= n < line ==> !#[trigger] line_names(
                        self@,
                        LineKey { file: file@, line: n, side },
                        text::texts(identifiers@),
                    ),
            decreases end - line,
        {
            if let Some(text) = self.lookup(file, line, side) {
                if any_identifier(text.as_str(), identifiers) {
                    assert(line_names(
                        self@,
                        LineKey { file: file@, line: line as nat, side },
                        text::texts(identifiers@),
                    ));
                    return true;
                }
            }
            assert(!line_names(
                self@,
                LineKey { file: file@, line: line as nat, side },
                text::texts(identifiers@),
            ));
            if line == end {
                return false;
            }
            line += 1;
        }
    }
}

/// Whether the text contains one of the identifiers.
pub open spec fn names_any(text: Seq<char>, identifiers: Seq<Seq<char>>) -> bool {
    exists|j: int| 0 <= j < identifiers.len() && names_identifier(text, #[trigger] identifiers[j])
}

/// Whether the line is shown and contains one of the identifiers.
pub open spec fn line_names(
    shown: Map<LineKey, Seq<char>>,
    key: LineKey,
    identifiers: Seq<Seq<char>>,
) -> bool {
    shown.contains_key(key) && names_any(shown[key], identifiers)
}

/// Whether one of the lines from `start` to `end`, both counted in, is shown and contains one of
/// the identifiers.
pub open spec fn range_names(
    shown: Map<LineKey, Seq<char>>,
    file: Seq<char>,
    start: nat,
    end: nat,
    side: Side,
    identifiers: Seq<Seq<char>>,
) -> bool {
    exists|n: nat|
        start <= n <= end && #[trigger] line_names(
            shown,
            LineKey { file, line: n, side },
            identifiers,
        )
}

fn any_identifier(text: &str, identifiers: &[String]) -> (r: bool)
    ensures
        r == names_any(text@, text::texts(identifiers@)),
{
    let mut i: usize = 0;
    while i < identifiers.len()
        invariant
            i <= identifiers.len(),
            forall|j: int|
                0 <= j < i ==> !names_identifier(
                    text@,
                    #[trigger] text::texts(identifiers@)[j],
                ),
        decreases identifiers.len() - i,
    {
        assert(text::texts(identifiers@)[i as int] == identifiers@[i as int]@);
        if contains_c_identifier(text, identifiers[i].as_str()) {
            return true;
        }
        i += 1;
    }
    false
}

impl Default for DiffIndex {
    fn default() -> (r: Self)
        ensures
            r@ == Map::<LineKey, Seq<char>>::empty(),
    {
        DiffIndex::new()
    }
}

} // verus!
