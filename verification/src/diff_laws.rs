//! What holds of every diff and its index.

use vstd::prelude::*;

use crate::diff_index;
use crate::diff_index::{Cursor, HunkBodyLine, LineKey, Side};
use crate::text;

verus! {

/// Whether line `k` of a diff is a hunk line that shows the given line of a file: additions show
/// a line of the new version, deletions one of the old version, context lines one of each.
pub open spec fn shows(lines: Seq<Seq<char>>, k: int, key: LineKey) -> bool {
    let c = diff_index::cursor_after(lines, k)->0;
    let on_right = key.side == Side::Right && diff_index::path_after(lines, k, Side::Right) == Some(
        key.file,
    ) && key.line == c.new_line;
    let on_left = key.side == Side::Left && diff_index::path_after(lines, k, Side::Left) == Some(
        key.file,
    ) && key.line == c.old_line;
    match diff_index::body_kind(lines, k) {
        Some(HunkBodyLine::Addition) => on_right,
        Some(HunkBodyLine::Deletion) => on_left,
        Some(HunkBodyLine::Context) => on_right || on_left,
        _ => false,
    }
}

/// What one more line of the diff changes.
proof fn lemma_one_more_line(lines: Seq<Seq<char>>, k: int, key: LineKey)
    requires
        0 < k <= lines.len(),
    ensures
        ({
            let before = diff_index::lines_after(lines, k - 1);
            let after = diff_index::lines_after(lines, k);
            &&& shows(lines, k - 1, key) ==> after.contains_key(key) && after[key]
                == diff_index::body_text(lines[k - 1])
            &&& !shows(lines, k - 1, key) ==> after.contains_key(key) == before.contains_key(key)
                && after[key] == before[key]
        }),
{
}

/// Whether line `j` is the last of the first `k` lines that shows the given line of a file.
spec fn shows_last(lines: Seq<Seq<char>>, j: int, k: int, key: LineKey) -> bool {
    &&& 0 <= j < k
    &&& shows(lines, j, key)
    &&& forall|i: int| j < i < k ==> !shows(lines, i, key)
}

proof fn lemma_lines_after(lines: Seq<Seq<char>>, k: int, key: LineKey)
    requires
        0 <= k <= lines.len(),
    ensures
        diff_index::lines_after(lines, k).contains_key(key) <==> exists|j: int|
            0 <= j < k && shows(lines, j, key),
        forall|j: int| #[trigger]
            shows_last(lines, j, k, key) ==> diff_index::lines_after(lines, k)[key]
                == diff_index::body_text(lines[j]),
    decreases k,
{
    if k > 0 {
        lemma_lines_after(lines, k - 1, key);
        lemma_one_more_line(lines, k, key);
        assert forall|j: int| #[trigger] shows_last(lines, j, k, key) implies diff_index::lines_after(
            lines,
            k,
        )[key] == diff_index::body_text(lines[j]) by {
            if j < k - 1 {
                assert(shows_last(lines, j, k - 1, key));
            }
        }
    }
}

/// Indexing a line adds that line and no other, gives it the new text in place of any earlier one,
/// and leaves the text of every other line as it was.
pub proof fn lemma_indexing_a_line(
    shown: Map<LineKey, Seq<char>>,
    key: LineKey,
    text: Seq<char>,
    other: LineKey,
)
    ensures
        shown.insert(key, text).contains_key(other) <==> shown.contains_key(other) || other == key,
        shown.insert(key, text)[key] == text,
        other != key ==> shown.insert(key, text)[other] == shown[other],
{
}

/// A diff indexes exactly the lines that its hunk lines show.
pub proof fn lemma_indexed_iff_shown(diff: Seq<char>, key: LineKey)
    ensures
        diff_index::shown_lines(diff).contains_key(key) <==> exists|k: int|
            0 <= k < text::lines(diff).len() && shows(text::lines(diff), k, key),
{
    lemma_lines_after(text::lines(diff), text::lines(diff).len() as int, key);
}

/// The text of an indexed line is that of the last hunk line that shows it.
pub proof fn lemma_indexed_text(diff: Seq<char>, key: LineKey, k: int)
    requires
        0 <= k < text::lines(diff).len(),
        shows(text::lines(diff), k, key),
        forall|i: int| k < i < text::lines(diff).len() ==> !shows(text::lines(diff), i, key),
    ensures
        diff_index::shown_lines(diff)[key] == diff_index::body_text(text::lines(diff)[k]),
{
    let n = text::lines(diff).len() as int;
    lemma_lines_after(text::lines(diff), n, key);
    assert(shows_last(text::lines(diff), k, n, key));
}

/// A context line is indexed on both sides: under the new path with the new number, and under the
/// old path with the old number.
pub proof fn lemma_context_on_both_sides(diff: Seq<char>, k: int)
    requires
        0 <= k < text::lines(diff).len(),
        diff_index::body_kind(text::lines(diff), k) == Some(HunkBodyLine::Context),
    ensures
        ({
            let lines = text::lines(diff);
            let c = diff_index::cursor_after(lines, k)->0;
            let shown = diff_index::shown_lines(diff);
            &&& diff_index::path_after(lines, k, Side::Right) matches Some(file)
                ==> shown.contains_key(LineKey { file, line: c.new_line, side: Side::Right })
            &&& diff_index::path_after(lines, k, Side::Left) matches Some(file)
                ==> shown.contains_key(LineKey { file, line: c.old_line, side: Side::Left })
        }),
{
    let lines = text::lines(diff);
    let c = diff_index::cursor_after(lines, k)->0;
    if let Some(file) = diff_index::path_after(lines, k, Side::Right) {
        let key = LineKey { file, line: c.new_line, side: Side::Right };
        lemma_indexed_iff_shown(diff, key);
        assert(shows(lines, k, key));
    }
    if let Some(file) = diff_index::path_after(lines, k, Side::Left) {
        let key = LineKey { file, line: c.old_line, side: Side::Left };
        lemma_indexed_iff_shown(diff, key);
        assert(shows(lines, k, key));
    }
}

/// A hunk line changes neither path, whatever it looks like, and keeps its hunk open.
pub proof fn lemma_hunk_lines_are_no_headers(diff: Seq<char>, k: int, side: Side)
    requires
        0 <= k < text::lines(diff).len(),
        diff_index::body_kind(text::lines(diff), k) is Some,
    ensures
        diff_index::path_after(text::lines(diff), k + 1, side) == diff_index::path_after(
            text::lines(diff),
            k,
            side,
        ),
        diff_index::cursor_after(text::lines(diff), k + 1) is Some,
{
}

/// Whether line `h` opens a hunk and the lines from there to `k` all belong to it.
pub open spec fn in_hunk_of(lines: Seq<Seq<char>>, h: int, k: int) -> bool {
    &&& 0 <= h < k <= lines.len()
    &&& diff_index::body_kind(lines, h) is None
    &&& diff_index::hunk_header(lines[h]) is Some
    &&& forall|i: int| h < i < k ==> diff_index::body_kind(lines, i) is Some
}

/// The header's ranges bound a hunk: what has been counted and what is still to come add up to
/// the declared range on each side.
pub proof fn lemma_declared_counts(diff: Seq<char>, h: int, k: int)
    requires
        in_hunk_of(text::lines(diff), h, k),
    ensures
        ({
            let lines = text::lines(diff);
            let r = diff_index::hunk_header(lines[h])->0;
            diff_index::cursor_after(lines, k) matches Some(c) && {
                &&& r.old_start <= c.old_line
                &&& c.old_line + c.old_left == r.old_start + r.old_len
                &&& r.new_start <= c.new_line
                &&& c.new_line + c.new_left == r.new_start + r.new_len
            }
        }),
    decreases k,
{
    let lines = text::lines(diff);
    if k > h + 1 {
        assert(diff_index::body_kind(lines, k - 1) is Some);
        lemma_declared_counts(diff, h, k - 1);
    }
}

/// Every open position belongs to a hunk that some line opened.
pub proof fn lemma_open_hunk_has_header(diff: Seq<char>, k: int) -> (h: int)
    requires
        0 <= k <= text::lines(diff).len(),
        diff_index::cursor_after(text::lines(diff), k) is Some,
    ensures
        in_hunk_of(text::lines(diff), h, k),
    decreases k,
{
    let lines = text::lines(diff);
    if diff_index::body_kind(lines, k - 1) is Some {
        lemma_open_hunk_has_header(diff, k - 1)
    } else {
        k - 1
    }
}

/// An indexed line lies inside the range that some hunk header declares for its side.
pub proof fn lemma_indexed_within_a_hunk(diff: Seq<char>, key: LineKey)
    requires
        diff_index::shown_lines(diff).contains_key(key),
    ensures
        exists|h: int|
            0 <= h < text::lines(diff).len() && (#[trigger] diff_index::hunk_header(
                text::lines(diff)[h],
            ) matches Some(r) && match key.side {
                Side::Left => r.old_start <= key.line < r.old_start + r.old_len,
                Side::Right => r.new_start <= key.line < r.new_start + r.new_len,
            }),
{
    let lines = text::lines(diff);
    lemma_indexed_iff_shown(diff, key);
    let k = choose|k: int| 0 <= k < lines.len() && shows(lines, k, key);
    let h = lemma_open_hunk_has_header(diff, k);
    lemma_declared_counts(diff, h, k);
    assert(diff_index::hunk_header(lines[h]) is Some);
}

proof fn lemma_path_not_empty(lines: Seq<Seq<char>>, k: int, side: Side)
    ensures
        diff_index::path_after(lines, k, side) matches Some(p) ==> p.len() > 0,
    decreases k,
{
    if k > 0 {
        lemma_path_not_empty(lines, k - 1, side);
    }
}

/// No line is indexed under an empty path.
pub proof fn lemma_indexed_paths_not_empty(diff: Seq<char>, key: LineKey)
    requires
        diff_index::shown_lines(diff).contains_key(key),
    ensures
        key.file.len() > 0,
{
    let lines = text::lines(diff);
    lemma_indexed_iff_shown(diff, key);
    let k = choose|k: int| 0 <= k < lines.len() && shows(lines, k, key);
    lemma_path_not_empty(lines, k, key.side);
}

/// A range that names an identifier holds an indexed line.
pub proof fn lemma_range_names_indexed(
    shown: Map<LineKey, Seq<char>>,
    file: Seq<char>,
    start: nat,
    end: nat,
    side: Side,
    identifiers: Seq<Seq<char>>,
)
    requires
        diff_index::range_names(shown, file, start, end, side, identifiers),
    ensures
        exists|n: nat|
            start <= n <= end && #[trigger] shown.contains_key(LineKey { file, line: n, side }),
{
    let n = choose|n: nat|
        start <= n <= end && #[trigger] diff_index::line_names(
            shown,
            LineKey { file, line: n, side },
            identifiers,
        );
    let key = LineKey { file, line: n, side };
    assert(shown.contains_key(key));
}

/// A wider range names every identifier that a narrower one does.
pub proof fn lemma_range_names_grows(
    shown: Map<LineKey, Seq<char>>,
    file: Seq<char>,
    start: nat,
    end: nat,
    wide_start: nat,
    wide_end: nat,
    side: Side,
    identifiers: Seq<Seq<char>>,
)
    requires
        wide_start <= start,
        end <= wide_end,
        diff_index::range_names(shown, file, start, end, side, identifiers),
    ensures
        diff_index::range_names(shown, file, wide_start, wide_end, side, identifiers),
{
    let n = choose|n: nat|
        start <= n <= end && #[trigger] diff_index::line_names(
            shown,
            LineKey { file, line: n, side },
            identifiers,
        );
    assert(diff_index::line_names(shown, LineKey { file, line: n, side }, identifiers));
}

proof fn lemma_lines_concat(a: Seq<char>, b: Seq<char>)
    requires
        a.len() == 0 || a.last() == '\n',
    ensures
        text::lines(a + b) == text::lines(a) + text::lines(b),
    decreases a.len(),
{
    if a.len() == 0 {
        assert(a + b == b);
        assert(text::lines(a) + text::lines(b) == text::lines(b));
    } else {
        let i = text::find_char(a, '\n') as int;
        text::lemma_find_char(a, '\n');
        if i == a.len() {
            assert(a[a.len() - 1] != '\n');
        }
        let ab = a + b;
        assert forall|j: int| 0 <= j < i implies ab[j] != '\n' by {
            assert(ab[j] == a[j]);
        }
        text::lemma_find_char_unique(ab, '\n', i);
        assert(ab.take(i) == a.take(i));
        let rest = a.skip(i + 1);
        assert(ab.skip(i + 1) == rest + b);
        if rest.len() > 0 {
            assert(rest.last() == a.last());
        }
        lemma_lines_concat(rest, b);
        let head = seq![text::without_cr(a.take(i))];
        assert(text::lines(ab) == head + text::lines(rest + b));
        assert(text::lines(a) == head + text::lines(rest));
        assert(head + (text::lines(rest) + text::lines(b)) == (head + text::lines(rest))
            + text::lines(b));
    }
}

/// The lines of the first part are read the same way whatever follows them.
pub proof fn lemma_first_part(a: Seq<Seq<char>>, b: Seq<Seq<char>>, k: int)
    requires
        0 <= k <= a.len(),
    ensures
        diff_index::cursor_after(a + b, k) == diff_index::cursor_after(a, k),
        diff_index::path_after(a + b, k, Side::Left) == diff_index::path_after(a, k, Side::Left),
        diff_index::path_after(a + b, k, Side::Right) == diff_index::path_after(a, k, Side::Right),
        diff_index::lines_after(a + b, k) == diff_index::lines_after(a, k),
    decreases k,
{
    if k > 0 {
        lemma_first_part(a, b, k - 1);
        assert((a + b)[k - 1] == a[k - 1]);
    }
}

/// A `diff --git` line belongs to no hunk and opens none.
pub proof fn lemma_git_line_closes(line: Seq<char>, c: Option<Cursor>)
    requires
        text::has_prefix(line, "diff --git "@),
    ensures
        diff_index::kind_at(c, line) is None,
        diff_index::opened_hunk(line) is None,
{
    reveal_strlit("diff --git ");
    reveal_strlit("@@ ");
    assert(line.take("diff --git "@.len() as int)[0] == line[0]);
    if text::has_prefix(line, "@@ "@) {
        assert(line.take(3)[0] == line[0]);
    }
}

/// A line shown on top of two maps is shown on top of the second one.
proof fn lemma_line_on_union(
    first: Map<LineKey, Seq<char>>,
    m: Map<LineKey, Seq<char>>,
    path: Option<Seq<char>>,
    line: nat,
    side: Side,
    text: Seq<char>,
)
    ensures
        diff_index::with_line(first.union_prefer_right(m), path, line, side, text)
            == first.union_prefer_right(diff_index::with_line(m, path, line, side, text)),
{
    assert(diff_index::with_line(first.union_prefer_right(m), path, line, side, text)
        =~= first.union_prefer_right(diff_index::with_line(m, path, line, side, text)));
}

/// The lines of the second part are read as if it stood alone once its first line, which closes
/// what was open before it, has been read.
proof fn lemma_second_part_cursor(a: Seq<Seq<char>>, b: Seq<Seq<char>>, k: int)
    requires
        0 < k <= b.len(),
        text::has_prefix(b[0], "diff --git "@),
    ensures
        diff_index::cursor_after(a + b, a.len() + k) == diff_index::cursor_after(b, k),
    decreases k,
{
    let n = a.len() as int;
    assert((a + b)[n + k - 1] == b[k - 1]);
    if k == 1 {
        lemma_git_line_closes(b[0], diff_index::cursor_after(a + b, n));
        lemma_git_line_closes(b[0], diff_index::cursor_after(b, 0));
    } else {
        lemma_second_part_cursor(a, b, k - 1);
    }
}

proof fn lemma_second_part_path(a: Seq<Seq<char>>, b: Seq<Seq<char>>, k: int, side: Side)
    requires
        0 < k <= b.len(),
        text::has_prefix(b[0], "diff --git "@),
    ensures
        diff_index::path_after(a + b, a.len() + k, side) == diff_index::path_after(b, k, side),
    decreases k,
{
    let n = a.len() as int;
    assert((a + b)[n + k - 1] == b[k - 1]);
    if k == 1 {
        lemma_git_line_closes(b[0], diff_index::cursor_after(a + b, n));
        lemma_git_line_closes(b[0], diff_index::cursor_after(b, 0));
    } else {
        lemma_second_part_cursor(a, b, k - 1);
        lemma_second_part_path(a, b, k - 1, side);
    }
}

proof fn lemma_second_part(a: Seq<Seq<char>>, b: Seq<Seq<char>>, k: int)
    requires
        0 < k <= b.len(),
        text::has_prefix(b[0], "diff --git "@),
    ensures
        diff_index::lines_after(a + b, a.len() + k) == diff_index::lines_after(
            a,
            a.len() as int,
        ).union_prefer_right(diff_index::lines_after(b, k)),
    decreases k,
{
    let ab = a + b;
    let n = a.len() as int;
    let first = diff_index::lines_after(a, n);
    assert(ab[n + k - 1] == b[k - 1]);
    if k == 1 {
        lemma_first_part(a, b, n);
        lemma_git_line_closes(b[0], diff_index::cursor_after(ab, n));
        lemma_git_line_closes(b[0], diff_index::cursor_after(b, 0));
        assert(diff_index::lines_after(b, 0) == Map::<LineKey, Seq<char>>::empty());
        assert(diff_index::lines_after(b, 1) == Map::<LineKey, Seq<char>>::empty());
        assert(first.union_prefer_right(Map::<LineKey, Seq<char>>::empty()) =~= first);
    } else {
        lemma_second_part(a, b, k - 1);
        lemma_second_part_cursor(a, b, k - 1);
        lemma_second_part_path(a, b, k - 1, Side::Left);
        lemma_second_part_path(a, b, k - 1, Side::Right);
        let before = diff_index::lines_after(b, k - 1);
        let old_path = diff_index::path_after(b, k - 1, Side::Left);
        let new_path = diff_index::path_after(b, k - 1, Side::Right);
        let c = diff_index::cursor_after(b, k - 1)->0;
        let line = diff_index::body_text(b[k - 1]);
        let with_new = diff_index::with_line(before, new_path, c.new_line, Side::Right, line);
        lemma_line_on_union(first, before, new_path, c.new_line, Side::Right, line);
        lemma_line_on_union(first, before, old_path, c.old_line, Side::Left, line);
        lemma_line_on_union(first, with_new, old_path, c.old_line, Side::Left, line);
    }
}

/// Diffs of several files in one text are indexed as if each stood alone, a later one winning
/// where two show the same line: a `diff --git` line closes the hunk before it, even one that
/// lacks some of its declared lines, and clears both paths.
pub proof fn lemma_diffs_concatenate(a: Seq<char>, b: Seq<char>)
    requires
        a.len() == 0 || a.last() == '\n',
        text::has_prefix(b, "diff --git "@),
    ensures
        diff_index::shown_lines(a + b) == diff_index::shown_lines(a).union_prefer_right(
            diff_index::shown_lines(b),
        ),
{
    lemma_lines_concat(a, b);
    let la = text::lines(a);
    let lb = text::lines(b);
    lemma_first_line_prefix(b);
    lemma_second_part(la, lb, lb.len() as int);
}

proof fn lemma_first_line_prefix(b: Seq<char>)
    requires
        text::has_prefix(b, "diff --git "@),
    ensures
        text::lines(b).len() > 0,
        text::has_prefix(text::lines(b)[0], "diff --git "@),
{
    reveal_strlit("diff --git ");
    let p = "diff --git "@;
    let n = p.len() as int;
    text::lemma_find_char(b, '\n');
    let i = text::find_char(b, '\n') as int;
    if i < n {
        assert(b.take(n)[i] == b[i]);
        assert(p[i] != '\n');
    }
    if i < b.len() {
        let line = b.take(i);
        if line.last() == '\r' && i == n {
            assert(b.take(n)[i - 1] == b[i - 1]);
            assert(p[i - 1] != '\r');
        }
        assert(text::without_cr(line).take(n) == b.take(n));
    }
}

} // verus!
