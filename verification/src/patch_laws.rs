//! What the lines of a patch are, by their characters.

use vstd::prelude::*;

use crate::diff_index;
use crate::diff_index::{HunkBodyLine, HunkRange, LineKey, Side};
use crate::text;

verus! {

/// A line that begins with `+` is an addition as long as new lines are to come, one that begins
/// with `-` a deletion as long as old ones are, and one that begins with a space, or is empty,
/// context as long as both are, whatever follows. A backslash begins a remark at any time. Nothing
/// else belongs to a hunk.
pub proof fn lemma_hunk_body_lines(rest: Seq<char>, c: char, old_left: nat, new_left: nat)
    ensures
        diff_index::hunk_body_line(seq!['+'] + rest, old_left, new_left) == if new_left > 0 {
            Some(HunkBodyLine::Addition)
        } else {
            None
        },
        diff_index::hunk_body_line(seq!['-'] + rest, old_left, new_left) == if old_left > 0 {
            Some(HunkBodyLine::Deletion)
        } else {
            None
        },
        diff_index::hunk_body_line(seq![' '] + rest, old_left, new_left) == if old_left > 0
            && new_left > 0 {
            Some(HunkBodyLine::Context)
        } else {
            None
        },
        diff_index::hunk_body_line(Seq::empty(), old_left, new_left) == if old_left > 0 && new_left
            > 0 {
            Some(HunkBodyLine::Context)
        } else {
            None
        },
        diff_index::hunk_body_line(seq!['\\'] + rest, old_left, new_left) == Some(
            HunkBodyLine::NoNewline,
        ),
        c != '+' && c != '-' && c != ' ' && c != '\\' ==> diff_index::hunk_body_line(
            seq![c] + rest,
            old_left,
            new_left,
        ) is None,
{
}

/// A range is a number, or two with a comma between them; the length of one that has a single
/// number is one.
pub proof fn lemma_range_numbers(first: Seq<char>, second: Seq<char>)
    requires
        forall|i: int| 0 <= i < first.len() ==> #[trigger] first[i] != ',',
    ensures
        diff_index::range_numbers(first) == match text::parse_unsigned(first, u64::MAX as nat) {
            Some(start) => Some((start, 1nat)),
            None => None,
        },
        diff_index::range_numbers(first + seq![','] + second) == match (
            text::parse_unsigned(first, u64::MAX as nat),
            text::parse_unsigned(second, u64::MAX as nat),
        ) {
            (Some(start), Some(len)) => Some((start, len)),
            _ => None,
        },
{
    let n = first.len() as int;
    text::lemma_find_char_unique(first, ',', n);
    let s = first + seq![','] + second;
    text::lemma_find_char_unique(s, ',', n);
    assert(s.take(n) =~= first);
    assert(s.skip(n + 1) =~= second);
}

/// A hunk header has its ranges between `@@ -` and ` +` and the next space; what follows that is
/// no part of it.
pub proof fn lemma_hunk_header(old: Seq<char>, new: Seq<char>, rest: Seq<char>)
    requires
        forall|i: int| 0 <= i < old.len() ==> #[trigger] old[i] != ' ',
        forall|i: int| 0 <= i < new.len() ==> #[trigger] new[i] != ' ',
    ensures
        diff_index::hunk_header("@@ -"@ + old + " +"@ + new + " "@ + rest) == match (
            diff_index::range_numbers(old),
            diff_index::range_numbers(new),
        ) {
            (Some((a, b)), Some((c, d))) => Some(
                HunkRange { old_start: a, old_len: b, new_start: c, new_len: d },
            ),
            _ => None,
        },
{
    reveal_strlit("@@ -");
    reveal_strlit("@@ ");
    reveal_strlit(" +");
    reveal_strlit(" ");
    reveal_strlit("-");
    reveal_strlit("+");
    let line = "@@ -"@ + old + " +"@ + new + " "@ + rest;
    assert(line.take(3) =~= "@@ "@);
    let tail = line.skip(3);
    let first = old.len() as int + 1;
    assert(tail =~= seq!['-'] + old + seq![' ', '+'] + new + seq![' '] + rest);
    assert forall|j: int| 0 <= j < first implies tail[j] != ' ' by {
        if j > 0 {
            assert(tail[j] == old[j - 1]);
        }
    }
    assert(tail[first] == ' ');
    text::lemma_find_char_unique(tail, ' ', first);
    let after = tail.skip(first + 1);
    let second = new.len() as int + 1;
    assert(after =~= seq!['+'] + new + seq![' '] + rest);
    assert forall|j: int| 0 <= j < second implies after[j] != ' ' by {
        if j > 0 {
            assert(after[j] == new[j - 1]);
        }
    }
    assert(after[second] == ' ');
    text::lemma_find_char_unique(after, ' ', second);
    let a = tail.take(first);
    let b = tail.subrange(first + 1, first + 1 + second);
    assert(a =~= "-"@ + old);
    assert(b =~= "+"@ + new);
    assert(a.take(1) =~= "-"@);
    assert(a.skip(1) =~= old);
    assert(b.take(1) =~= "+"@);
    assert(b.skip(1) =~= new);
}

/// A hunk header begins with `@@ -`.
pub proof fn lemma_hunk_header_begins(line: Seq<char>)
    ensures
        diff_index::hunk_header(line) is Some ==> line.len() > 4 && line.take(4) == "@@ -"@,
{
    reveal_strlit("@@ -");
    reveal_strlit("@@ ");
    reveal_strlit("-");
    if diff_index::hunk_header(line) is Some {
        assert(text::has_prefix(line, "@@ "@));
        assert("@@ "@.len() == 3);
        let tail = line.skip(3);
        let first = text::find_char(tail, ' ') as int;
        assert(text::has_prefix(tail.take(first), "-"@));
        assert("-"@.len() == 1);
        assert(tail.take(first).take(1)[0] == '-');
        assert(line[3] == '-');
        assert(line.take(3)[0] == line[0] && line.take(3)[1] == line[1] && line.take(3)[2]
            == line[2]);
        assert(line.take(4) =~= "@@ -"@);
    }
}

/// Whether a line has the form of a hunk header with the given ranges, which hold no spaces.
pub open spec fn has_ranges(
    line: Seq<char>,
    old: Seq<char>,
    new: Seq<char>,
    rest: Seq<char>,
) -> bool {
    &&& line == "@@ -"@ + old + " +"@ + new + " "@ + rest
    &&& forall|i: int| 0 <= i < old.len() ==> #[trigger] old[i] != ' '
    &&& forall|i: int| 0 <= i < new.len() ==> #[trigger] new[i] != ' '
}

/// A hunk header has its form, down to the space behind its second range.
pub proof fn lemma_hunk_header_form(line: Seq<char>)
    ensures
        diff_index::hunk_header(line) is Some ==> exists|
            old: Seq<char>,
            new: Seq<char>,
            rest: Seq<char>,
        |
            #[trigger] has_ranges(line, old, new, rest),
{
    if diff_index::hunk_header(line) is Some {
        let tail = line.skip(3);
        lemma_header_tail(line);
        let (old, new, rest) = lemma_ranges_of(tail);
        lemma_header_text(line, old, new, rest);
        assert(has_ranges(line, old, new, rest));
    }
}

proof fn lemma_header_tail(line: Seq<char>)
    requires
        text::has_prefix(line, "@@ "@),
    ensures
        line.skip("@@ "@.len() as int) == line.skip(3),
        line.len() >= 3,
        line[0] == '@' && line[1] == '@' && line[2] == ' ',
{
    reveal_strlit("@@ ");
    assert("@@ "@.len() == 3);
    let head = line.take(3);
    assert(head[0] == line[0] && head[1] == line[1] && head[2] == line[2]);
}

proof fn lemma_header_text(line: Seq<char>, old: Seq<char>, new: Seq<char>, rest: Seq<char>)
    requires
        line.len() >= 3,
        line[0] == '@' && line[1] == '@' && line[2] == ' ',
        line.skip(3) == seq!['-'] + old + seq![' ', '+'] + new + seq![' '] + rest,
    ensures
        line == "@@ -"@ + old + " +"@ + new + " "@ + rest,
{
    reveal_strlit("@@ -");
    reveal_strlit(" +");
    reveal_strlit(" ");
    let tail = line.skip(3);
    let text = "@@ -"@ + old + " +"@ + new + " "@ + rest;
    assert("@@ -"@.len() == 4 && " +"@.len() == 2 && " "@.len() == 1);
    let same = seq!['-'] + old + seq![' ', '+'] + new + seq![' '] + rest;
    assert(same.len() == old.len() + new.len() + rest.len() + 4);
    assert(text.len() == same.len() + 3);
    assert(tail.len() == line.len() - 3);
    assert forall|i: int| 0 <= i < line.len() implies line[i] == text[i] by {
        if i >= 3 {
            assert(line[i] == tail[i - 3]);
        }
    }
    assert(line =~= text);
}

proof fn lemma_ranges_of(tail: Seq<char>) -> (r: (Seq<char>, Seq<char>, Seq<char>))
    requires
        ({
            let first = text::find_char(tail, ' ') as int;
            let second = first + 1 + text::find_char(tail.skip(first + 1), ' ') as int;
            &&& first < tail.len()
            &&& second < tail.len()
            &&& text::has_prefix(tail.take(first), "-"@)
            &&& text::has_prefix(tail.subrange(first + 1, second), "+"@)
        }),
    ensures
        tail == seq!['-'] + r.0 + seq![' ', '+'] + r.1 + seq![' '] + r.2,
        forall|i: int| 0 <= i < r.0.len() ==> #[trigger] r.0[i] != ' ',
        forall|i: int| 0 <= i < r.1.len() ==> #[trigger] r.1[i] != ' ',
{
    reveal_strlit("-");
    reveal_strlit("+");
    let first = text::find_char(tail, ' ') as int;
    let after = tail.skip(first + 1);
    let length = text::find_char(after, ' ') as int;
    let second = first + 1 + length;
    text::lemma_find_char(tail, ' ');
    text::lemma_find_char(after, ' ');
    let a = tail.take(first);
    let b = tail.subrange(first + 1, second);
    assert(a.take(1)[0] == '-' && b.take(1)[0] == '+');
    assert(tail[0] == a[0] && tail[first + 1] == b[0]);
    assert(after[length] == tail[second]);
    let old = tail.subrange(1, first);
    let new = tail.subrange(first + 2, second);
    let rest = tail.skip(second + 1);
    assert forall|i: int| 0 <= i < new.len() implies #[trigger] new[i] != ' ' by {
        assert(new[i] == after[i + 1]);
    }
    assert(tail =~= seq!['-'] + old + seq![' ', '+'] + new + seq![' '] + rest);
    (old, new, rest)
}

/// A header line with nothing but white space in front of a tab, or at all, gives no path.
pub proof fn lemma_blank_path(rest: Seq<char>)
    requires
        forall|i: int| 0 <= i < rest.len() ==> text::is_space(#[trigger] rest[i]),
    ensures
        diff_index::diff_path(rest) is None,
{
    text::lemma_trim_empty(rest);
    reveal_strlit("a/");
    reveal_strlit("b/");
    let empty = Seq::<char>::empty();
    assert(text::trim(rest) =~= empty);
    assert(empty.take(0) =~= empty);
}

/// Only `LEFT` names the old side.
pub proof fn lemma_side_names(s: Seq<char>)
    ensures
        diff_index::side_named(s) == Side::Left <==> s == "LEFT"@,
        diff_index::side_named(s) == Side::Right <==> s != "LEFT"@,
{
}

/// Whether a path has no white space at its ends and no tab.
pub open spec fn is_plain_path(path: Seq<char>) -> bool {
    &&& path.len() > 0
    &&& !text::is_space(path[0])
    &&& !text::is_space(path.last())
    &&& forall|i: int| 0 <= i < path.len() ==> #[trigger] path[i] != '\t'
}

proof fn lemma_trimmed(path: Seq<char>)
    requires
        path.len() > 0,
        !text::is_space(path[0]),
        !text::is_space(path.last()),
    ensures
        text::trim(path) == path,
{
}

proof fn lemma_path_field(path: Seq<char>)
    requires
        is_plain_path(path),
    ensures
        text::trim(path.take(text::find_char(path, '\t') as int)) == path,
        text::trim(path) == path,
{
    text::lemma_find_char_unique(path, '\t', path.len() as int);
    assert(path.take(path.len() as int) =~= path);
    lemma_trimmed(path);
}

/// The path of a header line is what stands there, without a leading `a/` or `b/`, and `/dev/null`
/// is no path.
pub proof fn lemma_header_paths(path: Seq<char>)
    requires
        is_plain_path(path),
    ensures
        diff_index::diff_path("a/"@ + path) == Some(path),
        diff_index::diff_path("b/"@ + path) == Some(path),
        diff_index::diff_path(path) == if path == "/dev/null"@ || path == "a/"@ || path == "b/"@ {
            None
        } else if text::has_prefix(path, "a/"@) || text::has_prefix(path, "b/"@) {
            Some(path.skip(2))
        } else {
            Some(path)
        },
{
    reveal_strlit("a/");
    reveal_strlit("b/");
    reveal_strlit("/dev/null");
    let a = "a/"@ + path;
    let b = "b/"@ + path;
    assert(a.last() == path.last() && b.last() == path.last());
    assert forall|i: int| 0 <= i < a.len() implies #[trigger] a[i] != '\t' by {
        if i >= 2 {
            assert(a[i] == path[i - 2]);
        }
    }
    assert forall|i: int| 0 <= i < b.len() implies #[trigger] b[i] != '\t' by {
        if i >= 2 {
            assert(b[i] == path[i - 2]);
        }
    }
    lemma_path_field(a);
    lemma_path_field(b);
    lemma_path_field(path);
    assert(a.take(2) =~= "a/"@ && a.skip(2) =~= path);
    assert(b.take(2) =~= "b/"@ && b.skip(2) =~= path);
    assert(b.take(2)[0] != "a/"@[0]);
    assert(a[0] != "/dev/null"@[0]);
    assert(b[0] != "/dev/null"@[0]);
    if path.len() == 2 {
        assert(path.take(2) =~= path);
    }
    if text::has_prefix(path, "a/"@) {
        assert(path.take(2)[0] == 'a');
    }
    if text::has_prefix(path, "b/"@) {
        assert(path.take(2)[0] == 'b');
    }
}

/// What follows a tab, and white space around it, is no part of a path.
pub proof fn lemma_path_ends_at_tab(path: Seq<char>, rest: Seq<char>)
    requires
        is_plain_path(path),
        rest.len() == 0 || !text::is_space(rest.last()),
    ensures
        diff_index::diff_path(path + seq!['\t'] + rest) == diff_index::diff_path(path),
        diff_index::diff_path(seq![' '] + path) == diff_index::diff_path(path),
        diff_index::diff_path(path + seq![' ']) == diff_index::diff_path(path),
{
    lemma_path_field(path);
    let s = path + seq!['\t'] + rest;
    let n = path.len() as int;
    if rest.len() == 0 {
        assert(s.drop_last() =~= path);
        assert(s.last() == '\t');
        assert(s[0] == path[0]);
        assert(text::trim_start(s) == s);
        assert(text::trim_end(s) == text::trim_end(path));
    } else {
        assert(s.last() == rest.last());
        lemma_trimmed(s);
        text::lemma_find_char_unique(s, '\t', n);
        assert(s.take(n) =~= path);
    }
    let t = seq![' '] + path;
    assert(t.skip(1) =~= path);
    assert(text::trim_start(t) == text::trim_start(path));
    let u = path + seq![' '];
    assert(u.drop_last() =~= path);
    assert(u[0] == path[0]);
    assert(text::trim_start(u) == u);
    assert(text::trim_end(u) == text::trim_end(path));
}

/// A text names an identifier that stands in it with no identifier character on either side.
pub proof fn lemma_named_in_text(a: Seq<char>, ident: Seq<char>, b: Seq<char>)
    requires
        ident.len() > 0,
        forall|i: int| 0 <= i < ident.len() ==> text::is_ident_char(#[trigger] ident[i]),
        a.len() == 0 || !text::is_ident_char(a.last()),
        b.len() == 0 || !text::is_ident_char(b[0]),
    ensures
        diff_index::names_identifier(a + ident + b, ident),
{
    diff_index::lemma_names_identifier(a + ident + b, ident);
    let s = a + ident + b;
    let at = a.len() as int;
    assert(s.subrange(at, at + ident.len()) =~= ident);
    assert(diff_index::occurs_at(s, ident, at));
    if at > 0 {
        assert(s[at - 1] == a.last());
    }
    if b.len() > 0 {
        assert(s[at + ident.len()] == b[0]);
    }
    assert(diff_index::stands_alone(s, at, ident.len() as int));
}

/// A text that names an identifier has it with no identifier character on either side.
pub proof fn lemma_named_stands_alone(s: Seq<char>, ident: Seq<char>)
    requires
        ident.len() > 0,
        forall|i: int| 0 <= i < ident.len() ==> text::is_ident_char(#[trigger] ident[i]),
        diff_index::names_identifier(s, ident),
    ensures
        exists|at: int|
            {
                &&& 0 <= at
                &&& at + ident.len() <= s.len()
                &&& #[trigger] s.subrange(at, at + ident.len()) == ident
                &&& at == 0 || !text::is_ident_char(s[at - 1])
                &&& at + ident.len() == s.len() || !text::is_ident_char(s[at + ident.len()])
            },
{
    diff_index::lemma_names_identifier(s, ident);
    let at = choose|at: int| #[trigger]
        diff_index::occurs_at(s, ident, at) && diff_index::stands_alone(s, at, ident.len() as int);
    assert(s.subrange(at, at + ident.len()) == ident);
}

/// A range of lines names identifiers exactly if one of its shown lines names one of them.
pub proof fn lemma_range_names(
    shown: Map<LineKey, Seq<char>>,
    file: Seq<char>,
    start: nat,
    end: nat,
    side: Side,
    identifiers: Seq<Seq<char>>,
)
    ensures
        forall|n: nat, j: int|
            #![trigger shown[LineKey { file, line: n, side }], identifiers[j]]
            start <= n <= end && 0 <= j < identifiers.len() && shown.contains_key(
                LineKey { file, line: n, side },
            ) && diff_index::names_identifier(
                shown[LineKey { file, line: n, side }],
                identifiers[j],
            ) ==> diff_index::range_names(shown, file, start, end, side, identifiers),
        diff_index::range_names(shown, file, start, end, side, identifiers) ==> exists|
            n: nat,
            j: int,
        |
            #![trigger shown[LineKey { file, line: n, side }], identifiers[j]]
            start <= n <= end && 0 <= j < identifiers.len() && shown.contains_key(
                LineKey { file, line: n, side },
            ) && diff_index::names_identifier(
                shown[LineKey { file, line: n, side }],
                identifiers[j],
            ),
{
    assert forall|n: nat, j: int|
        #![trigger shown[LineKey { file, line: n, side }], identifiers[j]]
        start <= n <= end && 0 <= j < identifiers.len() && shown.contains_key(
            LineKey { file, line: n, side },
        ) && diff_index::names_identifier(
            shown[LineKey { file, line: n, side }],
            identifiers[j],
        ) implies diff_index::range_names(shown, file, start, end, side, identifiers) by {
        assert(diff_index::line_names(shown, LineKey { file, line: n, side }, identifiers));
    }
    if diff_index::range_names(shown, file, start, end, side, identifiers) {
        let n = choose|n: nat|
            start <= n <= end && #[trigger] diff_index::line_names(
                shown,
                LineKey { file, line: n, side },
                identifiers,
            );
        let text = shown[LineKey { file, line: n, side }];
        let j = choose|j: int|
            0 <= j < identifiers.len()
                && diff_index::names_identifier(text, #[trigger] identifiers[j]);
        assert(diff_index::names_identifier(shown[LineKey { file, line: n, side }], identifiers[j]));
    }
}

} // verus!
