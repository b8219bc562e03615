//! What each line of a patch adds to what has been read of it.

use vstd::prelude::*;

use crate::diff_index;
use crate::diff_index::{Cursor, HunkRange, LineKey, Side};
use crate::diff_laws::{lemma_first_part, lemma_git_line_closes};
use crate::patch_laws::lemma_hunk_header_begins;
use crate::text;

verus! {

/// What has been read once all the lines were: the open hunk, the two paths and what is shown.
pub open spec fn has_read(
    lines: Seq<Seq<char>>,
    cursor: Option<Cursor>,
    old_path: Option<Seq<char>>,
    new_path: Option<Seq<char>>,
    shown: Map<LineKey, Seq<char>>,
) -> bool {
    let n = lines.len() as int;
    &&& diff_index::cursor_after(lines, n) == cursor
    &&& diff_index::path_after(lines, n, Side::Left) == old_path
    &&& diff_index::path_after(lines, n, Side::Right) == new_path
    &&& diff_index::lines_after(lines, n) == shown
}

/// Before the first line nothing has been read, and what a diff shows is what its lines show.
pub proof fn lemma_nothing_read(diff: Seq<char>)
    ensures
        has_read(Seq::empty(), None, None, None, Map::empty()),
        exists|c: Option<Cursor>, a: Option<Seq<char>>, b: Option<Seq<char>>| #[trigger]
            has_read(text::lines(diff), c, a, b, diff_index::shown_lines(diff)),
{
    let l = text::lines(diff);
    let n = l.len() as int;
    assert(has_read(
        l,
        diff_index::cursor_after(l, n),
        diff_index::path_after(l, n, Side::Left),
        diff_index::path_after(l, n, Side::Right),
        diff_index::shown_lines(diff),
    ));
}

proof fn lemma_one_more(lines: Seq<Seq<char>>, line: Seq<char>)
    ensures
        ({
            let n = lines.len() as int;
            let all = lines.push(line);
            &&& diff_index::cursor_after(all, n) == diff_index::cursor_after(lines, n)
            &&& diff_index::path_after(all, n, Side::Left) == diff_index::path_after(
                lines,
                n,
                Side::Left,
            )
            &&& diff_index::path_after(all, n, Side::Right) == diff_index::path_after(
                lines,
                n,
                Side::Right,
            )
            &&& diff_index::lines_after(all, n) == diff_index::lines_after(lines, n)
        }),
{
    assert(lines.push(line) =~= lines + seq![line]);
    lemma_first_part(lines, seq![line], lines.len() as int);
}

/// Inside a hunk that has new lines to come, `+` shows the rest of the line on the new side under
/// the next number, and nothing else changes.
pub proof fn lemma_read_addition(
    lines: Seq<Seq<char>>,
    c: Cursor,
    old_path: Option<Seq<char>>,
    new_path: Option<Seq<char>>,
    shown: Map<LineKey, Seq<char>>,
    rest: Seq<char>,
)
    requires
        has_read(lines, Some(c), old_path, new_path, shown),
        c.new_left > 0,
    ensures
        has_read(
            lines.push(seq!['+'] + rest),
            Some(
                Cursor {
                    old_line: c.old_line,
                    old_left: c.old_left,
                    new_line: c.new_line + 1,
                    new_left: (c.new_left - 1) as nat,
                },
            ),
            old_path,
            new_path,
            match new_path {
                Some(file) => shown.insert(
                    LineKey { file, line: c.new_line, side: Side::Right },
                    rest,
                ),
                None => shown,
            },
        ),
{
    let line = seq!['+'] + rest;
    lemma_one_more(lines, line);
    assert(line.skip(1) =~= rest);
}

/// Inside a hunk that has old lines to come, `-` shows the rest of the line on the old side under
/// the next number, and nothing else changes.
pub proof fn lemma_read_deletion(
    lines: Seq<Seq<char>>,
    c: Cursor,
    old_path: Option<Seq<char>>,
    new_path: Option<Seq<char>>,
    shown: Map<LineKey, Seq<char>>,
    rest: Seq<char>,
)
    requires
        has_read(lines, Some(c), old_path, new_path, shown),
        c.old_left > 0,
    ensures
        has_read(
            lines.push(seq!['-'] + rest),
            Some(
                Cursor {
                    old_line: c.old_line + 1,
                    old_left: (c.old_left - 1) as nat,
                    new_line: c.new_line,
                    new_left: c.new_left,
                },
            ),
            old_path,
            new_path,
            match old_path {
                Some(file) => shown.insert(
                    LineKey { file, line: c.old_line, side: Side::Left },
                    rest,
                ),
                None => shown,
            },
        ),
{
    let line = seq!['-'] + rest;
    lemma_one_more(lines, line);
    assert(line.skip(1) =~= rest);
}

/// Inside a hunk that has lines of both sides to come, a line that begins with a space shows the
/// rest of it, and an empty one shows an empty line, on both sides under the next numbers.
pub proof fn lemma_read_context(
    lines: Seq<Seq<char>>,
    c: Cursor,
    old_path: Option<Seq<char>>,
    new_path: Option<Seq<char>>,
    shown: Map<LineKey, Seq<char>>,
    rest: Seq<char>,
)
    requires
        has_read(lines, Some(c), old_path, new_path, shown),
        c.old_left > 0,
        c.new_left > 0,
    ensures
        ({
            let next = Cursor {
                old_line: c.old_line + 1,
                old_left: (c.old_left - 1) as nat,
                new_line: c.new_line + 1,
                new_left: (c.new_left - 1) as nat,
            };
            let on_new = |text: Seq<char>| match new_path {
                Some(file) => shown.insert(LineKey { file, line: c.new_line, side: Side::Right }, text),
                None => shown,
            };
            let on_both = |text: Seq<char>| match old_path {
                Some(file) => on_new(text).insert(
                    LineKey { file, line: c.old_line, side: Side::Left },
                    text,
                ),
                None => on_new(text),
            };
            &&& has_read(lines.push(seq![' '] + rest), Some(next), old_path, new_path, on_both(rest))
            &&& has_read(
                lines.push(Seq::empty()),
                Some(next),
                old_path,
                new_path,
                on_both(Seq::empty()),
            )
        }),
{
    let line = seq![' '] + rest;
    lemma_one_more(lines, line);
    lemma_one_more(lines, Seq::empty());
    assert(line.skip(1) =~= rest);
}

/// Inside a hunk a remark changes nothing.
pub proof fn lemma_read_remark(
    lines: Seq<Seq<char>>,
    c: Cursor,
    old_path: Option<Seq<char>>,
    new_path: Option<Seq<char>>,
    shown: Map<LineKey, Seq<char>>,
    rest: Seq<char>,
)
    requires
        has_read(lines, Some(c), old_path, new_path, shown),
    ensures
        has_read(lines.push(seq!['\\'] + rest), Some(c), old_path, new_path, shown),
{
    lemma_one_more(lines, seq!['\\'] + rest);
}

/// A `diff --git` line clears both paths and leaves no hunk open, wherever it stands.
pub proof fn lemma_read_git_line(
    lines: Seq<Seq<char>>,
    cursor: Option<Cursor>,
    old_path: Option<Seq<char>>,
    new_path: Option<Seq<char>>,
    shown: Map<LineKey, Seq<char>>,
    rest: Seq<char>,
)
    requires
        has_read(lines, cursor, old_path, new_path, shown),
    ensures
        has_read(lines.push("diff --git "@ + rest), None, None, None, shown),
{
    let line = "diff --git "@ + rest;
    lemma_one_more(lines, line);
    assert(line.take("diff --git "@.len() as int) =~= "diff --git "@);
    lemma_git_line_closes(line, cursor);
}

/// A `---` line that no hunk takes gives the old path and leaves the new one, and a `+++` line the
/// other way round.
pub proof fn lemma_read_path_lines(
    lines: Seq<Seq<char>>,
    cursor: Option<Cursor>,
    old_path: Option<Seq<char>>,
    new_path: Option<Seq<char>>,
    shown: Map<LineKey, Seq<char>>,
    rest: Seq<char>,
)
    requires
        has_read(lines, cursor, old_path, new_path, shown),
    ensures
        (cursor matches Some(c) ==> c.old_left == 0) ==> has_read(
            lines.push("--- "@ + rest),
            None,
            diff_index::diff_path(rest),
            new_path,
            shown,
        ),
        (cursor matches Some(c) ==> c.new_left == 0) ==> has_read(
            lines.push("+++ "@ + rest),
            None,
            old_path,
            diff_index::diff_path(rest),
            shown,
        ),
{
    if cursor matches Some(c) ==> c.old_left == 0 {
        lemma_read_old_path(lines, cursor, old_path, new_path, shown, rest);
    }
    if cursor matches Some(c) ==> c.new_left == 0 {
        lemma_read_new_path(lines, cursor, old_path, new_path, shown, rest);
    }
}

proof fn lemma_read_old_path(
    lines: Seq<Seq<char>>,
    cursor: Option<Cursor>,
    old_path: Option<Seq<char>>,
    new_path: Option<Seq<char>>,
    shown: Map<LineKey, Seq<char>>,
    rest: Seq<char>,
)
    requires
        has_read(lines, cursor, old_path, new_path, shown),
        cursor matches Some(c) ==> c.old_left == 0,
    ensures
        has_read(
            lines.push("--- "@ + rest),
            None,
            diff_index::diff_path(rest),
            new_path,
            shown,
        ),
{
    let line = "--- "@ + rest;
    lemma_one_more(lines, line);
    assert(line.len() >= 4) by {
        reveal_strlit("--- ");
    }
    assert(line[0] == '-' && line.skip(4) =~= rest && text::has_prefix(line, "--- "@)) by {
        reveal_strlit("--- ");
        assert(line.take(4) =~= "--- "@);
    }
    assert(!text::has_prefix(line, "diff --git "@) && !text::has_prefix(line, "+++ "@)
        && !text::has_prefix(line, "@@ "@)) by {
        reveal_strlit("diff --git ");
        reveal_strlit("+++ ");
        reveal_strlit("@@ ");
        lemma_first_char(line, "diff --git "@);
        lemma_first_char(line, "+++ "@);
        lemma_first_char(line, "@@ "@);
    }
    assert(diff_index::kind_at(cursor, line) is None);
    assert(diff_index::opened_hunk(line) is None);
}

proof fn lemma_read_new_path(
    lines: Seq<Seq<char>>,
    cursor: Option<Cursor>,
    old_path: Option<Seq<char>>,
    new_path: Option<Seq<char>>,
    shown: Map<LineKey, Seq<char>>,
    rest: Seq<char>,
)
    requires
        has_read(lines, cursor, old_path, new_path, shown),
        cursor matches Some(c) ==> c.new_left == 0,
    ensures
        has_read(
            lines.push("+++ "@ + rest),
            None,
            old_path,
            diff_index::diff_path(rest),
            shown,
        ),
{
    let line = "+++ "@ + rest;
    lemma_one_more(lines, line);
    assert(line.len() >= 4) by {
        reveal_strlit("+++ ");
    }
    assert(line[0] == '+' && line.skip(4) =~= rest && text::has_prefix(line, "+++ "@)) by {
        reveal_strlit("+++ ");
        assert(line.take(4) =~= "+++ "@);
    }
    assert(!text::has_prefix(line, "diff --git "@) && !text::has_prefix(line, "--- "@)
        && !text::has_prefix(line, "@@ "@)) by {
        reveal_strlit("diff --git ");
        reveal_strlit("--- ");
        reveal_strlit("@@ ");
        lemma_first_char(line, "diff --git "@);
        lemma_first_char(line, "--- "@);
        lemma_first_char(line, "@@ "@);
    }
    assert(diff_index::kind_at(cursor, line) is None);
    assert(diff_index::opened_hunk(line) is None);
}

proof fn lemma_first_char(line: Seq<char>, prefix: Seq<char>)
    requires
        prefix.len() > 0,
        line.len() > 0,
        line[0] != prefix[0],
    ensures
        !text::has_prefix(line, prefix),
{
    if text::has_prefix(line, prefix) {
        assert(line.take(prefix.len() as int)[0] == line[0]);
    }
}

/// A hunk header opens a hunk of the ranges that it declares, in place of one that is open, and
/// changes neither the paths nor what is shown.
pub proof fn lemma_read_header(
    lines: Seq<Seq<char>>,
    cursor: Option<Cursor>,
    old_path: Option<Seq<char>>,
    new_path: Option<Seq<char>>,
    shown: Map<LineKey, Seq<char>>,
    line: Seq<char>,
    h: HunkRange,
)
    requires
        has_read(lines, cursor, old_path, new_path, shown),
        diff_index::hunk_header(line) == Some(h),
    ensures
        has_read(
            lines.push(line),
            Some(
                Cursor {
                    old_line: h.old_start,
                    old_left: h.old_len,
                    new_line: h.new_start,
                    new_left: h.new_len,
                },
            ),
            old_path,
            new_path,
            shown,
        ),
{
    lemma_one_more(lines, line);
    lemma_hunk_header_begins(line);
    reveal_strlit("@@ -");
    reveal_strlit("--- ");
    reveal_strlit("+++ ");
    reveal_strlit("diff --git ");
    assert(line.take(4)[0] == line[0]);
    lemma_first_char(line, "diff --git "@);
    lemma_first_char(line, "--- "@);
    lemma_first_char(line, "+++ "@);
}

/// Any other line closes the hunk that is open and changes neither the paths nor what is shown.
pub proof fn lemma_read_other_line(
    lines: Seq<Seq<char>>,
    cursor: Option<Cursor>,
    old_path: Option<Seq<char>>,
    new_path: Option<Seq<char>>,
    shown: Map<LineKey, Seq<char>>,
    line: Seq<char>,
)
    requires
        has_read(lines, cursor, old_path, new_path, shown),
        cursor matches Some(c) ==> diff_index::hunk_body_line(line, c.old_left, c.new_left) is None,
        diff_index::hunk_header(line) is None,
        !text::has_prefix(line, "diff --git "@),
        !text::has_prefix(line, "--- "@),
        !text::has_prefix(line, "+++ "@),
    ensures
        has_read(lines.push(line), None, old_path, new_path, shown),
{
    lemma_one_more(lines, line);
}

} // verus!
