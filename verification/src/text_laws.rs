//! What holds of the operations on text, in terms of the characters that go in and come out.

use vstd::prelude::*;
use crate::text::{
    after_prefix, all_digits, ascii_lower, char_texts, decimal, digit, digits_value, find_text,
    first_bytes, first_chars, has_prefix, is_ascii_alphanumeric, is_digit, is_hex_digit,
    is_ident_char, is_space, is_word_char, lemma_decimal, lemma_find_char_unique, lines,
    opt_text, parse_unsigned, plain_words, short12, texts, trim, trim_end, trim_start,
    unicode_alphanumeric, utf8_len,
};

verus! {

// ---------------------------------------------------------------------------------------------
// Characters
// ---------------------------------------------------------------------------------------------

/// The classes of characters, by their code points.
pub proof fn lemma_character_classes(c: char)
    ensures
        is_digit(c) <==> 48 <= c as u32 <= 57,
        is_hex_digit(c) <==> 48 <= c as u32 <= 57 || 65 <= c as u32 <= 70 || 97 <= c as u32 <= 102,
        is_ascii_alphanumeric(c) <==> 48 <= c as u32 <= 57 || 65 <= c as u32 <= 90 || 97 <= c as u32
            <= 122,
        is_ident_char(c) <==> 48 <= c as u32 <= 57 || 65 <= c as u32 <= 90 || c as u32 == 95 || 97
            <= c as u32 <= 122,
        c as u32 <= 127 ==> (is_word_char(c) <==> 48 <= c as u32 <= 57 || 65 <= c as u32 <= 90
            || c as u32 == 95 || 97 <= c as u32 <= 122),
        c as u32 > 127 ==> is_word_char(c) == unicode_alphanumeric(c),
        is_space(c) <==> 9 <= c as u32 <= 13 || c as u32 == 0x20 || c as u32 == 0x85 || c as u32
            == 0xa0 || c as u32 == 0x1680 || 0x2000 <= c as u32 <= 0x200a || c as u32 == 0x2028
            || c as u32 == 0x2029 || c as u32 == 0x202f || c as u32 == 0x205f || c as u32 == 0x3000,
        65 <= c as u32 <= 90 ==> ascii_lower(c) as u32 == c as u32 + 32,
        !(65 <= c as u32 <= 90) ==> ascii_lower(c) == c,
{
}

/// The length of a character in UTF-8, by its code point.
pub proof fn lemma_utf8_len(c: char)
    ensures
        utf8_len(c) == 1 <==> c as u32 <= 0x7f,
        utf8_len(c) == 2 <==> 0x80 <= c as u32 <= 0x7ff,
        utf8_len(c) == 3 <==> 0x800 <= c as u32 <= 0xffff,
        utf8_len(c) == 4 <==> 0x10000 <= c as u32,
{
}

// ---------------------------------------------------------------------------------------------
// Searching
// ---------------------------------------------------------------------------------------------

/// A prefix is what stands in front, and what follows it is the rest: nothing more and nothing
/// less.
pub proof fn lemma_prefix(prefix: Seq<char>, rest: Seq<char>)
    ensures
        has_prefix(prefix + rest, prefix),
        after_prefix(prefix + rest, prefix) == Some(rest),
{
    assert((prefix + rest).take(prefix.len() as int) =~= prefix);
    assert((prefix + rest).skip(prefix.len() as int) =~= rest);
}

/// A text that has a prefix is the prefix with the rest behind it.
pub proof fn lemma_prefix_is_in_front(s: Seq<char>, prefix: Seq<char>)
    ensures
        match after_prefix(s, prefix) {
            Some(rest) => has_prefix(s, prefix) && s == prefix + rest,
            None => !has_prefix(s, prefix)
                && forall|rest: Seq<char>| s != #[trigger] (prefix + rest),
        },
{
    if let Some(rest) = after_prefix(s, prefix) {
        assert(s =~= prefix + rest);
    } else {
        assert forall|rest: Seq<char>| s != #[trigger] (prefix + rest) by {
            lemma_prefix(prefix, rest);
        }
    }
}

/// The place that a search finds is the first one where the pattern stands, and nothing is found
/// only where it stands nowhere.
pub proof fn lemma_find_text_is_first(s: Seq<char>, pattern: Seq<char>)
    ensures
        match find_text(s, pattern) {
            Some(at) => {
                &&& at + pattern.len() <= s.len()
                &&& s.subrange(at as int, at as int + pattern.len()) == pattern
                &&& forall|i: int|
                    0 <= i < at && i + pattern.len() <= s.len() ==> #[trigger] s.subrange(
                        i,
                        i + pattern.len(),
                    ) != pattern
            },
            None => forall|i: int|
                0 <= i && i + pattern.len() <= s.len() ==> #[trigger] s.subrange(
                    i,
                    i + pattern.len(),
                ) != pattern,
        },
    decreases s.len(),
{
    let n = pattern.len() as int;
    if has_prefix(s, pattern) {
        assert(s.subrange(0, n) =~= s.take(n));
    } else if s.len() > 0 {
        let rest = s.skip(1);
        lemma_find_text_is_first(rest, pattern);
        assert forall|i: int| 0 <= i && i + n <= s.len() && (find_text(s, pattern) matches Some(at)
            ==> i < at) implies #[trigger] s.subrange(i, i + n) != pattern by {
            if i == 0 {
                assert(s.subrange(0, n) =~= s.take(n));
            } else {
                assert(s.subrange(i, i + n) =~= rest.subrange(i - 1, i - 1 + n));
            }
        }
        if let Some(at) = find_text(rest, pattern) {
            assert(s.subrange(at as int + 1, at as int + 1 + n) =~= rest.subrange(at as int, at + n));
        }
    } else {
        assert forall|i: int| 0 <= i && i + n <= s.len() implies #[trigger] s.subrange(i, i + n)
            != pattern by {
            assert(s.subrange(0, n) =~= s.take(n));
        }
    }
}

// ---------------------------------------------------------------------------------------------
// White space
// ---------------------------------------------------------------------------------------------

/// Whether a text is nothing but white space.
pub open spec fn is_blank(s: Seq<char>) -> bool {
    forall|i: int| 0 <= i < s.len() ==> is_space(#[trigger] s[i])
}

/// What trimming takes off is white space, and what is left has none at its ends.
pub proof fn lemma_trim(s: Seq<char>)
    ensures
        exists|a: Seq<char>, b: Seq<char>|
            #![trigger is_blank(a), is_blank(b)]
            is_blank(a) && is_blank(b) && s == a + trim(s) + b,
        trim(s).len() > 0 ==> !is_space(trim(s)[0]) && !is_space(trim(s).last()),
{
    lemma_trim_start(s);
    lemma_trim_end(trim_start(s));
    let a = choose|a: Seq<char>| #[trigger] is_blank(a) && s == a + trim_start(s);
    let b = choose|b: Seq<char>|
        #[trigger] is_blank(b) && trim_start(s) == trim_end(trim_start(s)) + b;
    assert(is_blank(a) && is_blank(b));
    assert(s =~= a + trim(s) + b);
    if trim(s).len() > 0 {
        assert(trim(s)[0] == trim_start(s)[0]);
    }
}

/// Trimming the front takes off white space, up to the first other character.
pub proof fn lemma_trim_start(s: Seq<char>)
    ensures
        exists|a: Seq<char>| #[trigger] is_blank(a) && s == a + trim_start(s),
        trim_start(s).len() > 0 ==> !is_space(trim_start(s)[0]),
    decreases s.len(),
{
    if s.len() > 0 && is_space(s[0]) {
        lemma_trim_start(s.skip(1));
        let a = choose|a: Seq<char>| #[trigger] is_blank(a) && s.skip(1)
            == a + trim_start(s.skip(1));
        let b = seq![s[0]] + a;
        assert forall|i: int| 0 <= i < b.len() implies is_space(#[trigger] b[i]) by {
            if i > 0 {
                assert(b[i] == a[i - 1]);
            }
        }
        assert(is_blank(b));
        assert(s =~= seq![s[0]] + s.skip(1));
        assert(b + trim_start(s) =~= seq![s[0]] + (a + trim_start(s.skip(1))));
    } else {
        let a = Seq::<char>::empty();
        assert(is_blank(a));
        assert(s =~= a + s);
    }
}

/// Trimming the end takes off white space, down to the last other character.
pub proof fn lemma_trim_end(s: Seq<char>)
    ensures
        exists|b: Seq<char>| #[trigger] is_blank(b) && s == trim_end(s) + b,
        trim_end(s).len() > 0 ==> !is_space(trim_end(s).last()),
    decreases s.len(),
{
    if s.len() > 0 && is_space(s.last()) {
        let t = s.drop_last();
        lemma_trim_end(t);
        let a = choose|a: Seq<char>| #[trigger] is_blank(a) && t == trim_end(t) + a;
        let b = a.push(s.last());
        assert(is_blank(b));
        assert(s =~= t.push(s.last()));
        assert(trim_end(s) + b =~= (trim_end(t) + a).push(s.last()));
    } else {
        let b = Seq::<char>::empty();
        assert(is_blank(b));
        assert(s =~= s + b);
    }
}

// ---------------------------------------------------------------------------------------------
// Lines
// ---------------------------------------------------------------------------------------------

/// Whether a text has no line break.
pub open spec fn is_one_line(s: Seq<char>) -> bool {
    forall|i: int| 0 <= i < s.len() ==> #[trigger] s[i] != '\n'
}

/// A text without line breaks is one line, as it is, or none if it is empty.
pub proof fn lemma_last_line(s: Seq<char>)
    requires
        is_one_line(s),
    ensures
        s.len() == 0 ==> lines(s).len() == 0,
        s.len() > 0 ==> lines(s) == seq![s],
{
    lemma_find_char_unique(s, '\n', s.len() as int);
}

/// A line that ends in a line break comes before the lines of what follows, and loses a carriage
/// return at its end.
pub proof fn lemma_first_line(line: Seq<char>, rest: Seq<char>)
    requires
        is_one_line(line),
    ensures
        line.len() == 0 || line.last() != '\r' ==> lines(line + "\n"@ + rest) == seq![line] + lines(
            rest,
        ),
        lines(line + "\r\n"@ + rest) == seq![line] + lines(rest),
{
    reveal_strlit("\n");
    reveal_strlit("\r\n");
    let s = line + "\n"@ + rest;
    lemma_find_char_unique(s, '\n', line.len() as int);
    assert(s.take(line.len() as int) =~= line);
    assert(s.skip(line.len() as int + 1) =~= rest);
    let t = line + "\r\n"@ + rest;
    let n = line.len() as int + 1;
    assert forall|j: int| 0 <= j < n implies t[j] != '\n' by {
        if j < line.len() {
            assert(t[j] == line[j]);
        }
    }
    lemma_find_char_unique(t, '\n', n);
    assert(t.take(n) =~= line.push('\r'));
    assert(line.push('\r').drop_last() =~= line);
    assert(t.skip(n + 1) =~= rest);
}

// ---------------------------------------------------------------------------------------------
// Numbers
// ---------------------------------------------------------------------------------------------

/// A number is written in ten digits by weight, the last one for the ones, and never with a zero
/// in front but for zero itself.
pub proof fn lemma_decimal_form(n: nat)
    ensures
        n < 10 ==> decimal(n).len() == 1 && decimal(n)[0] as nat == 48 + n,
        n >= 10 ==> decimal(n).drop_last() == decimal(n / 10) && decimal(n).last() as nat == 48 + n
            % 10,
        n > 0 ==> decimal(n)[0] != '0',
    decreases n,
{
    if n >= 10 {
        lemma_decimal_form(n / 10);
        lemma_decimal(n / 10);
        assert(decimal(n).drop_last() =~= decimal(n / 10));
        assert(decimal(n)[0] == decimal(n / 10)[0]);
    }
}

/// A number is read from its digits, with or without a plus sign and with any zeros in front; what
/// is above the limit, empty or has any other character is no number.
pub proof fn lemma_parse(s: Seq<char>, max: nat)
    ensures
        all_digits(s) && s.len() > 0 && digits_value(s) <= max ==> parse_unsigned(s, max) == Some(
            digits_value(s),
        ) && parse_unsigned(seq!['+'] + s, max) == Some(digits_value(s)),
        all_digits(s) && digits_value(s) > max ==> parse_unsigned(s, max) is None && parse_unsigned(
            seq!['+'] + s,
            max,
        ) is None,
        s.len() == 0 ==> parse_unsigned(s, max) is None && parse_unsigned(seq!['+'] + s, max)
            is None,
        forall|i: int|
            0 <= i < s.len() && !(48 <= (#[trigger] s[i]) as u32 <= 57) && (i > 0 || s[i] != '+')
                ==> parse_unsigned(s, max) is None,
{
    let p = seq!['+'] + s;
    assert(p.skip(1) =~= s);
    if s.len() > 0 && all_digits(s) {
        assert(is_digit(s[0]));
    }
    assert forall|i: int|
        0 <= i < s.len() && !(48 <= (#[trigger] s[i]) as u32 <= 57) && (i > 0 || s[i]
            != '+') implies parse_unsigned(s, max) is None by {
        if s[0] == '+' {
            assert(s.skip(1)[i - 1] == s[i]);
        } else {
            assert(!is_digit(s[i]));
        }
    }
}

/// The value of digits: each further digit multiplies by ten and adds itself.
pub proof fn lemma_digits_value(s: Seq<char>, d: nat)
    requires
        d < 10,
    ensures
        digits_value(Seq::empty()) == 0,
        digits_value(s.push(digit(d))) == digits_value(s) * 10 + d,
        digit(d) as nat == 48 + d,
{
    assert(s.push(digit(d)).drop_last() =~= s);
}

// ---------------------------------------------------------------------------------------------
// Fronts of texts
// ---------------------------------------------------------------------------------------------

/// The first characters of a text are its front, as many as asked for or all there are.
pub proof fn lemma_first_chars(s: Seq<char>, n: nat)
    ensures
        first_chars(s, n).len() == if s.len() < n { s.len() } else { n },
        forall|i: int| 0 <= i < first_chars(s, n).len() ==> #[trigger] first_chars(s, n)[i] == s[i],
{
}

/// The number of bytes of a text in UTF-8.
pub open spec fn bytes_of(s: Seq<char>) -> nat
    decreases s.len(),
{
    if s.len() == 0 {
        0
    } else {
        bytes_of(s.drop_last()) + utf8_len(s.last())
    }
}

proof fn lemma_bytes_from_front(c: char, s: Seq<char>)
    ensures
        bytes_of(seq![c] + s) == utf8_len(c) + bytes_of(s),
    decreases s.len(),
{
    if s.len() == 0 {
        assert(seq![c] + s =~= seq![c]);
        assert(seq![c].drop_last() =~= Seq::<char>::empty());
        assert(bytes_of(Seq::<char>::empty()) == 0);
    } else {
        lemma_bytes_from_front(c, s.drop_last());
        assert((seq![c] + s).drop_last() =~= seq![c] + s.drop_last());
    }
}

/// A front of a given number of bytes is found exactly if a character ends there.
pub proof fn lemma_first_bytes(front: Seq<char>, rest: Seq<char>)
    ensures
        first_bytes(front + rest, bytes_of(front) as int) == Some(front),
    decreases front.len(),
{
    if front.len() == 0 {
        assert(front =~= Seq::<char>::empty());
    } else {
        let tail = front.skip(1);
        let s = front + rest;
        assert(front =~= seq![front[0]] + tail);
        lemma_bytes_from_front(front[0], tail);
        lemma_first_bytes(tail, rest);
        assert(s.skip(1) =~= tail + rest);
        assert(s[0] == front[0]);
    }
}

/// A front that is found has the bytes that were asked for.
pub proof fn lemma_first_bytes_are_counted(s: Seq<char>, n: int)
    ensures
        first_bytes(s, n) matches Some(front) ==> {
            &&& bytes_of(front) == n
            &&& front.len() <= s.len()
            &&& s.take(front.len() as int) == front
        },
    decreases s.len(),
{
    if n == 0 {
        assert(s.take(0) =~= Seq::<char>::empty());
    } else if n > 0 && s.len() > 0 {
        let m = n - utf8_len(s[0]);
        lemma_first_bytes_are_counted(s.skip(1), m);
        if let Some(rest) = first_bytes(s.skip(1), m) {
            lemma_bytes_from_front(s[0], rest);
            assert(s.take(rest.len() as int + 1) =~= seq![s[0]] + s.skip(1).take(rest.len() as int));
        }
    }
}

/// The short name of a commit is its front of twelve bytes, and the whole name where no character
/// ends there.
pub proof fn lemma_short_name(sha: Seq<char>, k: int)
    requires
        0 <= k <= sha.len(),
    ensures
        bytes_of(sha.take(k)) == 12 ==> short12(sha) == sha.take(k),
        (forall|j: int| 0 <= j <= sha.len() ==> bytes_of(#[trigger] sha.take(j)) != 12) ==> short12(
            sha,
        ) == sha,
{
    lemma_first_bytes(sha.take(k), sha.skip(k));
    assert(sha.take(k) + sha.skip(k) =~= sha);
    lemma_first_bytes_are_counted(sha, 12);
}

// ---------------------------------------------------------------------------------------------
// Words
// ---------------------------------------------------------------------------------------------

/// Whether a text is a run of word characters.
pub open spec fn is_word(s: Seq<char>) -> bool {
    forall|i: int| 0 <= i < s.len() ==> is_word_char(#[trigger] s[i])
}

/// Whether a text has no word character.
pub open spec fn is_wordless(s: Seq<char>) -> bool {
    forall|i: int| 0 <= i < s.len() ==> !is_word_char(#[trigger] s[i])
}

/// A word stays, in lower case.
pub proof fn lemma_one_word(s: Seq<char>)
    requires
        is_word(s),
    ensures
        plain_words(s).len() == s.len(),
        forall|i: int| 0 <= i < s.len() ==> #[trigger] plain_words(s)[i] == ascii_lower(s[i]),
    decreases s.len(),
{
    if s.len() > 0 {
        let t = s.drop_last();
        assert forall|i: int| 0 <= i < t.len() implies is_word_char(#[trigger] t[i]) by {
            assert(t[i] == s[i]);
        }
        lemma_one_word(t);
        assert(is_word_char(s[s.len() - 1]));
        if s.len() > 1 {
            assert(is_word_char(s[s.len() - 2]));
        }
    }
}

/// What is not a word leaves no trace.
pub proof fn lemma_no_words(s: Seq<char>)
    requires
        is_wordless(s),
    ensures
        plain_words(s).len() == 0,
    decreases s.len(),
{
    if s.len() > 0 {
        let t = s.drop_last();
        assert forall|i: int| 0 <= i < t.len() implies !is_word_char(#[trigger] t[i]) by {
            assert(t[i] == s[i]);
        }
        lemma_no_words(t);
        assert(!is_word_char(s[s.len() - 1]));
    }
}

/// Texts with something between them that is no word have the words of both, with one space
/// between them where both have any.
pub proof fn lemma_words_join(a: Seq<char>, gap: Seq<char>, b: Seq<char>)
    requires
        gap.len() > 0,
        is_wordless(gap),
    ensures
        plain_words(a + gap + b) == if plain_words(a).len() == 0 {
            plain_words(b)
        } else if plain_words(b).len() == 0 {
            plain_words(a)
        } else {
            plain_words(a) + seq![' '] + plain_words(b)
        },
    decreases b.len(),
{
    let front = a + gap;
    let s = front + b;
    if b.len() == 0 {
        assert(s =~= front);
        lemma_words_before_gap(a, gap);
    } else {
        let t = b.drop_last();
        lemma_words_join(a, gap, t);
        assert(s.drop_last() =~= front + t);
        assert(s.last() == b.last());
        let before = plain_words(t);
        if b.len() > 1 {
            assert(s[s.len() - 2] == b[b.len() - 2]);
            lemma_word_leaves_trace(t);
        } else {
            assert(s[s.len() - 2] == gap.last());
            assert(gap.last() == gap[gap.len() - 1]);
            assert(t =~= Seq::<char>::empty());
        }
        let c = ascii_lower(b.last());
        let x = plain_words(a);
        assert((x + seq![' '] + before).push(c) =~= x + seq![' '] + before.push(c));
        assert((x + seq![' '] + before).push(' ').push(c) =~= x + seq![' '] + before.push(' ').push(
            c,
        ));
        assert(x.push(' ').push(c) =~= x + seq![' '] + Seq::<char>::empty().push(c));
    }
}

proof fn lemma_word_leaves_trace(s: Seq<char>)
    ensures
        s.len() > 0 && is_word_char(s.last()) ==> plain_words(s).len() > 0,
{
}

proof fn lemma_words_before_gap(a: Seq<char>, gap: Seq<char>)
    requires
        is_wordless(gap),
    ensures
        plain_words(a + gap) == plain_words(a),
    decreases gap.len(),
{
    if gap.len() == 0 {
        assert(a + gap =~= a);
    } else {
        let t = gap.drop_last();
        assert forall|i: int| 0 <= i < t.len() implies !is_word_char(#[trigger] t[i]) by {
            assert(t[i] == gap[i]);
        }
        lemma_words_before_gap(a, t);
        assert((a + gap).drop_last() =~= a + t);
        assert(!is_word_char(gap[gap.len() - 1]));
    }
}

/// The texts of strings are those of each of them, in their order.
pub proof fn lemma_texts(v: Seq<String>, w: Seq<Vec<char>>, s: String)
    ensures
        texts(v).len() == v.len(),
        forall|i: int| 0 <= i < v.len() ==> #[trigger] texts(v)[i] == v[i]@,
        char_texts(w).len() == w.len(),
        forall|i: int| 0 <= i < w.len() ==> #[trigger] char_texts(w)[i] == w[i]@,
        opt_text(Some(s)) == Some(s@),
        opt_text(None) is None,
{
}

} // verus!
