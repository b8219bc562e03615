//! Operations on text as sequences of characters.
//!
//! Every function here works on `[char]` or builds a `String`; the spec functions state over
//! `Seq<char>` what the operation of the same name means.

use vstd::prelude::*;
use vstd::slice::*;

verus! {

/// `String::push`: the character becomes the last one of the string.
pub assume_specification[ String::push ](s: &mut String, c: char)
    ensures
        final(s)@ == old(s)@.push(c),
;

// ---------------------------------------------------------------------------------------------
// Character classes
// ---------------------------------------------------------------------------------------------

/// `0` to `9`.
pub open spec fn is_digit(c: char) -> bool {
    '0' <= c <= '9'
}

/// `a` to `z`, `A` to `Z` or `0` to `9`.
pub open spec fn is_ascii_alphanumeric(c: char) -> bool {
    ||| 'a' <= c <= 'z'
    ||| 'A' <= c <= 'Z'
    ||| is_digit(c)
}

/// A character that may occur in a C identifier.
pub open spec fn is_ident_char(c: char) -> bool {
    is_ascii_alphanumeric(c) || c == '_'
}

/// `0` to `9`, `a` to `f` or `A` to `F`.
pub open spec fn is_hex_digit(c: char) -> bool {
    ||| is_digit(c)
    ||| 'a' <= c <= 'f'
    ||| 'A' <= c <= 'F'
}

/// The characters with the Unicode property `White_Space`.
pub open spec fn is_space(c: char) -> bool {
    ||| '\u{9}' <= c <= '\u{d}'
    ||| c == '\u{20}'
    ||| c == '\u{85}'
    ||| c == '\u{a0}'
    ||| c == '\u{1680}'
    ||| '\u{2000}' <= c <= '\u{200a}'
    ||| c == '\u{2028}'
    ||| c == '\u{2029}'
    ||| c == '\u{202f}'
    ||| c == '\u{205f}'
    ||| c == '\u{3000}'
}

/// What `char::is_alphanumeric` returns: it goes by the Unicode tables that the standard library
/// was built with.
pub uninterp spec fn unicode_alphanumeric(c: char) -> bool;

/// A character that belongs to a word of prose: a letter or digit of any script, or `_`.
pub open spec fn is_word_char(c: char) -> bool {
    if c <= '\u{7f}' {
        is_ident_char(c)
    } else {
        unicode_alphanumeric(c)
    }
}

/// `A` to `Z` become `a` to `z`; every other character stays.
pub open spec fn ascii_lower(c: char) -> char {
    if 'A' <= c <= 'Z' {
        ((c as u8) + 32) as char
    } else {
        c
    }
}

pub fn char_is_digit(c: char) -> (r: bool)
    ensures
        r == is_digit(c),
{
    '0' <= c && c <= '9'
}

pub fn char_is_ascii_alphanumeric(c: char) -> (r: bool)
    ensures
        r == is_ascii_alphanumeric(c),
{
    ('a' <= c && c <= 'z') || ('A' <= c && c <= 'Z') || char_is_digit(c)
}

pub fn char_is_ident(c: char) -> (r: bool)
    ensures
        r == is_ident_char(c),
{
    char_is_ascii_alphanumeric(c) || c == '_'
}

pub fn char_is_hex_digit(c: char) -> (r: bool)
    ensures
        r == is_hex_digit(c),
{
    char_is_digit(c) || ('a' <= c && c <= 'f') || ('A' <= c && c <= 'F')
}

pub fn char_is_space(c: char) -> (r: bool)
    ensures
        r == is_space(c),
{
    ('\u{9}' <= c && c <= '\u{d}') || c == '\u{20}' || c == '\u{85}' || c == '\u{a0}' || c
        == '\u{1680}' || ('\u{2000}' <= c && c <= '\u{200a}') || c == '\u{2028}' || c == '\u{2029}'
        || c == '\u{202f}' || c == '\u{205f}' || c == '\u{3000}'
}

/// Calls `char::is_alphanumeric` and claims nothing but that its result depends on the character
/// alone.
#[verifier::external_body]
fn std_is_alphanumeric(c: char) -> (r: bool)
    ensures
        r == unicode_alphanumeric(c),
{
    c.is_alphanumeric()
}

pub fn char_is_word(c: char) -> (r: bool)
    ensures
        r == is_word_char(c),
{
    if c <= '\u{7f}' {
        char_is_ident(c)
    } else {
        std_is_alphanumeric(c)
    }
}

pub fn char_ascii_lower(c: char) -> (r: char)
    ensures
        r == ascii_lower(c),
{
    if 'A' <= c && c <= 'Z' {
        ((c as u8) + 32) as char
    } else {
        c
    }
}

// ---------------------------------------------------------------------------------------------
// Strings and character vectors
// ---------------------------------------------------------------------------------------------

/// The characters of a string.
pub fn chars_of(s: &str) -> (r: Vec<char>)
    ensures
        r@ == s@,
{
    let mut out: Vec<char> = Vec::new();
    for c in it: s.chars()
        invariant
            out@ == it.seq().take(it.index()),
            it.seq() == s@,
    {
        out.push(c);
    }
    out
}

/// The string of the given characters.
pub fn string_of(s: &[char]) -> (r: String)
    ensures
        r@ == s@,
{
    let mut out = String::new();
    let mut i: usize = 0;
    while i < s.len()
        invariant
            i <= s.len(),
            out@ == s@.take(i as int),
        decreases s.len() - i,
    {
        out.push(s[i]);
        i += 1;
    }
    out
}

/// A vector of the given characters.
pub fn copy_chars(s: &[char]) -> (r: Vec<char>)
    ensures
        r@ == s@,
{
    let mut out: Vec<char> = Vec::new();
    let mut i: usize = 0;
    while i < s.len()
        invariant
            i <= s.len(),
            out@ == s@.take(i as int),
        decreases s.len() - i,
    {
        out.push(s[i]);
        i += 1;
    }
    out
}

/// Whether two strings hold the same characters.
pub fn same_text(a: &str, b: &str) -> (r: bool)
    ensures
        r == (a@ == b@),
{
    a.to_owned() == b.to_owned()
}

/// Whether two slices hold the same characters.
pub fn same_chars(a: &[char], b: &[char]) -> (r: bool)
    ensures
        r == (a@ == b@),
{
    if a.len() != b.len() {
        return false;
    }
    let mut i: usize = 0;
    while i < a.len()
        invariant
            i <= a.len(),
            a.len() == b.len(),
            a@.take(i as int) == b@.take(i as int),
        decreases a.len() - i,
    {
        if a[i] != b[i] {
            return false;
        }
        assert(a@.take(i + 1) == a@.take(i as int).push(a@[i as int]));
        assert(b@.take(i + 1) == b@.take(i as int).push(b@[i as int]));
        i += 1;
    }
    assert(a@ == a@.take(i as int));
    assert(b@ == b@.take(i as int));
    true
}

/// The texts of a vector of strings.
pub open spec fn texts(v: Seq<String>) -> Seq<Seq<char>> {
    v.map_values(|s: String| s@)
}

/// The texts of a vector of character vectors.
pub open spec fn char_texts(v: Seq<Vec<char>>) -> Seq<Seq<char>> {
    v.map_values(|s: Vec<char>| s@)
}

/// A copy of a vector of strings.
pub fn copy_strings(v: &Vec<String>) -> (r: Vec<String>)
    ensures
        r@ == v@,
{
    let mut out: Vec<String> = Vec::new();
    let mut i: usize = 0;
    while i < v.len()
        invariant
            i <= v.len(),
            out@ == v@.take(i as int),
        decreases v.len() - i,
    {
        out.push(v[i].clone());
        i += 1;
    }
    out
}

/// Whether one of the strings has the given text.
pub fn contains_text(v: &[String], s: &str) -> (r: bool)
    ensures
        r == texts(v@).contains(s@),
{
    let mut i: usize = 0;
    while i < v.len()
        invariant
            i <= v.len(),
            forall|j: int| 0 <= j < i ==> (#[trigger] v@[j])@ != s@,
        decreases v.len() - i,
    {
        if same_text(v[i].as_str(), s) {
            assert(texts(v@)[i as int] == s@);
            return true;
        }
        i += 1;
    }
    assert forall|j: int| 0 <= j < texts(v@).len() implies texts(v@)[j] != s@ by {
        assert(texts(v@)[j] == v@[j]@);
    }
    false
}

// ---------------------------------------------------------------------------------------------
// Prefixes and searching
// ---------------------------------------------------------------------------------------------

/// Whether `s` begins with `prefix`.
pub open spec fn has_prefix(s: Seq<char>, prefix: Seq<char>) -> bool {
    prefix.len() <= s.len() && s.take(prefix.len() as int) == prefix
}

/// What follows `prefix` in `s`, where `s` begins with it.
pub open spec fn after_prefix(s: Seq<char>, prefix: Seq<char>) -> Option<Seq<char>> {
    if has_prefix(s, prefix) {
        Some(s.skip(prefix.len() as int))
    } else {
        None
    }
}

pub fn starts_with(s: &[char], prefix: &[char]) -> (r: bool)
    ensures
        r == has_prefix(s@, prefix@),
{
    if prefix.len() > s.len() {
        return false;
    }
    let head = slice_subrange(s, 0, prefix.len());
    assert(head@ == s@.take(prefix@.len() as int));
    same_chars(head, prefix)
}

/// The part of `s` behind `prefix`, where `s` begins with it.
pub fn strip_prefix<'a>(s: &'a [char], prefix: &str) -> (r: Option<&'a [char]>)
    ensures
        match r {
            Some(rest) => after_prefix(s@, prefix@) == Some(rest@),
            None => after_prefix(s@, prefix@) is None,
        },
{
    let p = chars_of(prefix);
    if starts_with(s, p.as_slice()) {
        let rest = slice_subrange(s, p.len(), s.len());
        assert(rest@ == s@.skip(p@.len() as int));
        Some(rest)
    } else {
        None
    }
}

/// The position of the first `c` in `s`, and the length of `s` where there is none.
pub open spec fn find_char(s: Seq<char>, c: char) -> nat
    decreases s.len(),
{
    if s.len() == 0 || s[0] == c {
        0
    } else {
        1 + find_char(s.skip(1), c)
    }
}

/// `find_char` gives the first position, and `s.len()` exactly where `c` does not occur.
pub proof fn lemma_find_char(s: Seq<char>, c: char)
    ensures
        find_char(s, c) <= s.len(),
        forall|j: int| 0 <= j < find_char(s, c) ==> s[j] != c,
        find_char(s, c) < s.len() ==> s[find_char(s, c) as int] == c,
    decreases s.len(),
{
    if s.len() != 0 && s[0] != c {
        let t = s.skip(1);
        lemma_find_char(t, c);
        assert forall|j: int| 0 <= j < find_char(s, c) implies s[j] != c by {
            if j > 0 {
                assert(t[j - 1] == s[j]);
            }
        }
    }
}

/// The first position of a character is the only one with no earlier occurrence.
pub proof fn lemma_find_char_unique(s: Seq<char>, c: char, i: int)
    requires
        0 <= i <= s.len(),
        forall|j: int| 0 <= j < i ==> s[j] != c,
        i < s.len() ==> s[i] == c,
    ensures
        find_char(s, c) == i,
{
    lemma_find_char(s, c);
    let f = find_char(s, c) as int;
    if f < i {
        assert(s[f] != c);
    } else if i < f {
        assert(s[i] != c);
    }
}

/// The position of the first `c` in `s` from `from` on, and the length of `s` where there is none.
pub fn find_from(s: &[char], c: char, from: usize) -> (r: usize)
    requires
        from <= s@.len(),
    ensures
        from <= r <= s@.len(),
        r - from == find_char(s@.skip(from as int), c),
{
    let mut i: usize = from;
    while i < s.len()
        invariant_except_break
            from <= i <= s.len(),
            forall|j: int| from <= j < i ==> s@[j] != c,
        ensures
            from <= i <= s.len(),
            forall|j: int| from <= j < i ==> s@[j] != c,
            i < s.len() ==> s@[i as int] == c,
        decreases s.len() - i,
    {
        if s[i] == c {
            break;
        }
        i += 1;
    }
    proof {
        lemma_find_char_unique(s@.skip(from as int), c, i - from);
    }
    i
}

/// The position of the first occurrence of `pattern` in `s`, if there is one.
pub open spec fn find_text(s: Seq<char>, pattern: Seq<char>) -> Option<nat>
    decreases s.len(),
{
    if has_prefix(s, pattern) {
        Some(0)
    } else if s.len() == 0 {
        None
    } else {
        match find_text(s.skip(1), pattern) {
            Some(i) => Some(i + 1),
            None => None,
        }
    }
}

pub fn find_pattern(s: &[char], pattern: &str) -> (r: Option<usize>)
    ensures
        match r {
            Some(i) => find_text(s@, pattern@) == Some(i as nat) && i + pattern@.len() <= s@.len(),
            None => find_text(s@, pattern@) is None,
        },
{
    let p = chars_of(pattern);
    let mut i: usize = 0;
    assert(s@.skip(0) == s@);
    loop
        invariant
            i <= s@.len(),
            p@ == pattern@,
            match find_text(s@.skip(i as int), p@) {
                Some(k) => find_text(s@, p@) == Some((k + i) as nat),
                None => find_text(s@, p@) is None,
            },
        decreases s@.len() - i,
    {
        let rest = slice_subrange(s, i, s.len());
        assert(rest@ == s@.skip(i as int));
        if starts_with(rest, p.as_slice()) {
            return Some(i);
        }
        if i == s.len() {
            return None;
        }
        assert(s@.skip(i as int).skip(1) == s@.skip(i + 1));
        i += 1;
    }
}

// ---------------------------------------------------------------------------------------------
// Trimming and lines
// ---------------------------------------------------------------------------------------------

/// `s` without its leading white space.
pub open spec fn trim_start(s: Seq<char>) -> Seq<char>
    decreases s.len(),
{
    if s.len() > 0 && is_space(s[0]) {
        trim_start(s.skip(1))
    } else {
        s
    }
}

/// `s` without its trailing white space.
pub open spec fn trim_end(s: Seq<char>) -> Seq<char>
    decreases s.len(),
{
    if s.len() > 0 && is_space(s.last()) {
        trim_end(s.drop_last())
    } else {
        s
    }
}

/// `s` without white space at either end.
pub open spec fn trim(s: Seq<char>) -> Seq<char> {
    trim_end(trim_start(s))
}

/// Trimming leaves nothing exactly where every character is white space.
pub proof fn lemma_trim_empty(s: Seq<char>)
    ensures
        trim(s).len() == 0 <==> forall|i: int| 0 <= i < s.len() ==> is_space(#[trigger] s[i]),
    decreases s.len(),
{
    lemma_trim_end_empty(trim_start(s));
    if s.len() > 0 && is_space(s[0]) {
        let t = s.skip(1);
        lemma_trim_empty(t);
        assert forall|i: int| 0 <= i < t.len() implies t[i] == #[trigger] s[i + 1] by {}
        if forall|i: int| 0 <= i < t.len() ==> is_space(#[trigger] t[i]) {
            assert forall|i: int| 0 <= i < s.len() implies is_space(#[trigger] s[i]) by {
                if i > 0 {
                    assert(is_space(t[i - 1]));
                }
            }
        }
        if forall|i: int| 0 <= i < s.len() ==> is_space(#[trigger] s[i]) {
            assert forall|i: int| 0 <= i < t.len() implies is_space(#[trigger] t[i]) by {
                assert(is_space(s[i + 1]));
            }
        }
    }
}

proof fn lemma_trim_end_empty(s: Seq<char>)
    ensures
        trim_end(s).len() == 0 <==> forall|i: int| 0 <= i < s.len() ==> is_space(#[trigger] s[i]),
    decreases s.len(),
{
    if s.len() > 0 && is_space(s.last()) {
        let t = s.drop_last();
        lemma_trim_end_empty(t);
        assert forall|i: int| 0 <= i < t.len() implies t[i] == #[trigger] s[i] by {}
        if forall|i: int| 0 <= i < t.len() ==> is_space(#[trigger] t[i]) {
            assert forall|i: int| 0 <= i < s.len() implies is_space(#[trigger] s[i]) by {
                if i < t.len() {
                    assert(is_space(t[i]));
                }
            }
        }
        if forall|i: int| 0 <= i < s.len() ==> is_space(#[trigger] s[i]) {
            assert forall|i: int| 0 <= i < t.len() implies is_space(#[trigger] t[i]) by {
                assert(is_space(s[i]));
            }
        }
    }
}

pub fn trim_end_chars<'a>(s: &'a [char]) -> (r: &'a [char])
    ensures
        r@ == trim_end(s@),
{
    let mut end: usize = s.len();
    assert(s@.take(s@.len() as int) == s@);
    while end > 0 && char_is_space(s[end - 1])
        invariant
            end <= s.len(),
            trim_end(s@.take(end as int)) == trim_end(s@),
        decreases end,
    {
        assert(s@.take(end as int).drop_last() == s@.take(end - 1));
        end -= 1;
    }
    let r = slice_subrange(s, 0, end);
    assert(r@ == s@.take(end as int));
    r
}

pub fn trim_chars<'a>(s: &'a [char]) -> (r: &'a [char])
    ensures
        r@ == trim(s@),
{
    let mut start: usize = 0;
    assert(s@.skip(0) == s@);
    while start < s.len() && char_is_space(s[start])
        invariant
            start <= s.len(),
            trim_start(s@.skip(start as int)) == trim_start(s@),
        decreases s.len() - start,
    {
        assert(s@.skip(start as int).skip(1) == s@.skip(start + 1));
        start += 1;
    }
    let t = slice_subrange(s, start, s.len());
    assert(t@ == s@.skip(start as int));
    trim_end_chars(t)
}

/// A line without the carriage return that precedes its line feed.
pub open spec fn without_cr(line: Seq<char>) -> Seq<char> {
    if line.len() > 0 && line.last() == '\r' {
        line.drop_last()
    } else {
        line
    }
}

/// The lines of a text. A line ends with a line feed or with a carriage return and a line feed;
/// the last line may lack its ending, and then keeps a trailing carriage return.
pub open spec fn lines(s: Seq<char>) -> Seq<Seq<char>>
    decreases s.len(),
{
    let i = find_char(s, '\n');
    if s.len() == 0 {
        Seq::empty()
    } else if i >= s.len() {
        seq![s]
    } else {
        seq![without_cr(s.take(i as int))] + lines(s.skip(i as int + 1))
    }
}

/// The lines of a text.
pub fn split_lines(s: &str) -> (r: Vec<Vec<char>>)
    ensures
        char_texts(r@) == lines(s@),
{
    let chars = chars_of(s);
    let mut out: Vec<Vec<char>> = Vec::new();
    let mut pos: usize = 0;
    assert(chars@.skip(0) == chars@);
    assert(char_texts(out@) == Seq::<Seq<char>>::empty());
    while pos < chars.len()
        invariant
            pos <= chars.len(),
            chars@ == s@,
            char_texts(out@) + lines(chars@.skip(pos as int)) == lines(s@),
        decreases chars.len() - pos,
    {
        let ghost rest = chars@.skip(pos as int);
        let nl = find_from(chars.as_slice(), '\n', pos);
        let ghost before = char_texts(out@);
        if nl == chars.len() {
            let line = copy_chars(slice_subrange(chars.as_slice(), pos, nl));
            assert(line@ == rest);
            out.push(line);
            assert(char_texts(out@) == before.push(rest));
            assert(lines(rest) == seq![rest]);
            assert(chars@.skip(nl as int) == Seq::<char>::empty());
            assert(lines(chars@.skip(nl as int)) == Seq::<Seq<char>>::empty());
            assert(char_texts(out@) + lines(chars@.skip(nl as int)) == before + lines(rest));
            pos = nl;
        } else {
            let end: usize = if nl > pos && chars[nl - 1] == '\r' {
                nl - 1
            } else {
                nl
            };
            let line = copy_chars(slice_subrange(chars.as_slice(), pos, end));
            proof {
                lemma_find_char(rest, '\n');
                assert(rest.take(nl - pos) == chars@.subrange(pos as int, nl as int));
                if nl > pos {
                    assert(rest.take(nl - pos).last() == chars@[nl - 1]);
                }
                assert(line@ == without_cr(rest.take(nl - pos)));
                assert(rest.skip(nl - pos + 1) == chars@.skip(nl + 1));
            }
            out.push(line);
            assert(char_texts(out@) == before.push(line@));
            assert(char_texts(out@) + lines(chars@.skip(nl + 1)) == before + lines(rest));
            pos = nl + 1;
        }
    }
    assert(chars@.skip(pos as int) == Seq::<char>::empty());
    assert(char_texts(out@) + lines(chars@.skip(pos as int)) == char_texts(out@));
    out
}

// ---------------------------------------------------------------------------------------------
// Decimal numbers
// ---------------------------------------------------------------------------------------------

/// The digit for a number below ten.
pub open spec fn digit(d: nat) -> char {
    (48 + d) as char
}

/// The number in decimal notation, without leading zeros.
pub open spec fn decimal(n: nat) -> Seq<char>
    decreases n,
{
    if n < 10 {
        seq![digit(n)]
    } else {
        decimal(n / 10).push(digit(n % 10))
    }
}

/// Whether every character is a digit.
pub open spec fn all_digits(s: Seq<char>) -> bool {
    forall|i: int| 0 <= i < s.len() ==> is_digit(#[trigger] s[i])
}

/// The number that a sequence of digits denotes.
pub open spec fn digits_value(s: Seq<char>) -> nat
    decreases s.len(),
{
    if s.len() == 0 {
        0
    } else {
        digits_value(s.drop_last()) * 10 + (s.last() as nat - 48) as nat
    }
}

/// What `s` denotes as an unsigned number of at most `max`: an optional `+`, then one or more
/// digits and nothing else.
pub open spec fn parse_unsigned(s: Seq<char>, max: nat) -> Option<nat> {
    let digits = if s.len() > 0 && s[0] == '+' {
        s.skip(1)
    } else {
        s
    };
    if digits.len() > 0 && all_digits(digits) && digits_value(digits) <= max {
        Some(digits_value(digits))
    } else {
        None
    }
}

/// A number in decimal notation consists of digits, at least one, and denotes that number.
pub proof fn lemma_decimal(n: nat)
    ensures
        decimal(n).len() > 0,
        all_digits(decimal(n)),
        digits_value(decimal(n)) == n,
    decreases n,
{
    if n < 10 {
        let s = seq![digit(n)];
        assert(s.drop_last() == Seq::<char>::empty());
        assert(digits_value(s.drop_last()) == 0);
        assert(s.last() as nat == 48 + n);
    } else {
        lemma_decimal(n / 10);
        let s = decimal(n);
        assert(s.drop_last() == decimal(n / 10));
        assert(s.last() as nat == 48 + n % 10);
    }
}

/// Reading a number back from its decimal notation gives the number.
pub proof fn lemma_parse_decimal(n: nat, max: nat)
    requires
        n <= max,
    ensures
        parse_unsigned(decimal(n), max) == Some(n),
{
    lemma_decimal(n);
    assert(is_digit(decimal(n)[0]));
}

/// Different numbers have different notations.
pub proof fn lemma_decimal_injective(m: nat, n: nat)
    requires
        decimal(m) == decimal(n),
    ensures
        m == n,
{
    lemma_decimal(m);
    lemma_decimal(n);
}

/// Appends a number in decimal notation.
pub fn push_decimal(out: &mut String, n: u64)
    ensures
        final(out)@ == old(out)@ + decimal(n as nat),
    decreases n,
{
    let ghost before = out@;
    if n >= 10 {
        push_decimal(out, n / 10);
    }
    let ghost mid = out@;
    let d: u8 = (n % 10) as u8;
    out.push((48 + d) as char);
    proof {
        if n >= 10 {
            assert(before + decimal((n / 10) as nat).push(digit((n % 10) as nat)) == mid.push(
                digit((n % 10) as nat),
            ));
        } else {
            assert(before + seq![digit(n as nat)] == before.push(digit(n as nat)));
        }
    }
}

proof fn lemma_digits_value_grows(s: Seq<char>, k: int)
    requires
        0 <= k <= s.len(),
    ensures
        digits_value(s.take(k)) <= digits_value(s),
    decreases s.len(),
{
    if k == s.len() {
        assert(s.take(k) == s);
    } else {
        lemma_digits_value_grows(s.drop_last(), k);
        assert(s.drop_last().take(k) == s.take(k));
    }
}

/// Reads an unsigned 64-bit number.
pub fn parse_u64(s: &[char]) -> (r: Option<u64>)
    ensures
        match r {
            Some(v) => parse_unsigned(s@, u64::MAX as nat) == Some(v as nat),
            None => parse_unsigned(s@, u64::MAX as nat) is None,
        },
{
    let start: usize = if s.len() > 0 && s[0] == '+' {
        1
    } else {
        0
    };
    let ghost digits = s@.skip(start as int);
    assert(s@.skip(0) == s@);
    if start == s.len() {
        return None;
    }
    let mut acc: u64 = 0;
    let mut i: usize = start;
    while i < s.len()
        invariant
            start <= i <= s.len(),
            start < s.len(),
            digits == s@.skip(start as int),
            digits == if s@.len() > 0 && s@[0] == '+' { s@.skip(1) } else { s@ },
            all_digits(digits.take(i - start)),
            acc == digits_value(digits.take(i - start)),
        decreases s.len() - i,
    {
        let c = s[i];
        let ghost k = i - start;
        assert(digits[k] == c);
        if !char_is_digit(c) {
            return None;
        }
        let d: u64 = (c as u32 - 48) as u64;
        proof {
            assert(digits.take(k + 1).drop_last() == digits.take(k));
            assert(digits_value(digits.take(k + 1)) == acc * 10 + d);
            lemma_digits_value_grows(digits, k + 1);
        }
        if acc > (u64::MAX - d) / 10 {
            assert(acc * 10 + d > u64::MAX);
            return None;
        }
        acc = acc * 10 + d;
        i += 1;
    }
    assert(digits.take(i - start) == digits);
    Some(acc)
}

/// Reads an unsigned number of the machine's word size.
pub fn parse_usize(s: &[char]) -> (r: Option<usize>)
    ensures
        match r {
            Some(v) => parse_unsigned(s@, usize::MAX as nat) == Some(v as nat),
            None => parse_unsigned(s@, usize::MAX as nat) is None,
        },
{
    match parse_u64(s) {
        Some(v) => if v <= usize::MAX as u64 {
            Some(v as usize)
        } else {
            None
        },
        None => None,
    }
}


// ---------------------------------------------------------------------------------------------
// Building text
// ---------------------------------------------------------------------------------------------

/// The text of an optional string.
pub open spec fn opt_text(s: Option<String>) -> Option<Seq<char>> {
    match s {
        Some(s) => Some(s@),
        None => None,
    }
}

/// Whether a text has no characters.
pub fn is_empty(s: &str) -> (r: bool)
    ensures
        r == (s@.len() == 0),
{
    proof {
        reveal_strlit("");
        if s@.len() == 0 {
            assert(s@ =~= ""@);
        }
    }
    same_text(s, "")
}

/// A copy of a text.
pub fn copy_text(s: &str) -> (r: String)
    ensures
        r@ == s@,
{
    let mut r = String::new();
    r.append(s);
    assert(r@ == s@);
    r
}

/// Appends a text.
pub fn push_text(out: &mut String, s: &str)
    ensures
        final(out)@ == old(out)@ + s@,
{
    out.append(s);
}

/// The first `n` characters of a text, all of it where it is shorter.
pub open spec fn first_chars(s: Seq<char>, n: nat) -> Seq<char> {
    if s.len() <= n {
        s
    } else {
        s.take(n as int)
    }
}

pub fn take_chars(s: &str, n: usize) -> (r: String)
    ensures
        r@ == first_chars(s@, n as nat),
{
    let chars = chars_of(s);
    if chars.len() <= n {
        string_of(chars.as_slice())
    } else {
        let head = slice_subrange(chars.as_slice(), 0, n);
        assert(head@ == s@.take(n as int));
        string_of(head)
    }
}

/// The number of bytes of a character in UTF-8.
pub open spec fn utf8_len(c: char) -> nat {
    if (c as u32) < 0x80 {
        1
    } else if (c as u32) < 0x800 {
        2
    } else if (c as u32) < 0x10000 {
        3
    } else {
        4
    }
}

/// The front of a text that is `n` bytes long in UTF-8, if one ends there.
pub open spec fn first_bytes(s: Seq<char>, n: int) -> Option<Seq<char>>
    decreases s.len(),
{
    if n == 0 {
        Some(Seq::empty())
    } else if n < 0 || s.len() == 0 {
        None
    } else {
        match first_bytes(s.skip(1), n - utf8_len(s[0])) {
            Some(rest) => Some(seq![s[0]] + rest),
            None => None,
        }
    }
}

/// The first twelve bytes of a commit's name, all of it where there are none.
pub open spec fn short12(sha: Seq<char>) -> Seq<char> {
    match first_bytes(sha, 12) {
        Some(short) => short,
        None => sha,
    }
}

pub fn sha12(sha: &str) -> (r: String)
    ensures
        r@ == short12(sha@),
{
    let chars = chars_of(sha);
    let mut out = String::new();
    let mut left: i32 = 12;
    let mut i: usize = 0;
    assert(sha@.skip(0) =~= sha@);
    while left > 0 && i < chars.len()
        invariant
            chars@ == sha@,
            i <= chars@.len(),
            -3 <= left <= 12,
            first_bytes(sha@, 12) == match first_bytes(sha@.skip(i as int), left as int) {
                Some(rest) => Some(out@ + rest),
                None => None,
            },
        decreases chars@.len() - i,
    {
        let c = chars[i];
        let n: i32 = if (c as u32) < 0x80 {
            1
        } else if (c as u32) < 0x800 {
            2
        } else if (c as u32) < 0x10000 {
            3
        } else {
            4
        };
        proof {
            let here = sha@.skip(i as int);
            assert(here.skip(1) =~= sha@.skip(i + 1));
            assert(here[0] == c);
            if let Some(rest) = first_bytes(here.skip(1), left - n) {
                assert(out@ + (seq![c] + rest) =~= out@.push(c) + rest);
            }
        }
        out.push(c);
        left -= n;
        i += 1;
    }
    if left == 0 {
        assert(out@ + Seq::<char>::empty() =~= out@);
        out
    } else {
        copy_text(sha)
    }
}

/// The words of a text in lower case (ASCII letters only), with one space between them. A word is
/// a run of letters, digits and underscores.
pub open spec fn plain_words(s: Seq<char>) -> Seq<char>
    decreases s.len(),
{
    if s.len() == 0 {
        Seq::empty()
    } else {
        let before = plain_words(s.drop_last());
        let c = ascii_lower(s.last());
        if !is_word_char(s.last()) {
            before
        } else if before.len() == 0 || (s.len() > 1 && is_word_char(s[s.len() - 2])) {
            before.push(c)
        } else {
            before.push(' ').push(c)
        }
    }
}

pub fn to_plain_words(s: &str) -> (r: String)
    ensures
        r@ == plain_words(s@),
{
    let chars = chars_of(s);
    let mut out = String::new();
    let mut empty = true;
    let mut inside = false;
    let mut i: usize = 0;
    while i < chars.len()
        invariant
            i <= chars@.len(),
            chars@ == s@,
            out@ == plain_words(chars@.take(i as int)),
            empty == (out@.len() == 0),
            inside == (i > 0 && is_word_char(chars@[i - 1])),
        decreases chars@.len() - i,
    {
        let c = chars[i];
        proof {
            let t = chars@.take(i + 1);
            assert(t.drop_last() == chars@.take(i as int));
            assert(t.last() == c);
            if i > 0 {
                assert(t[t.len() - 2] == chars@[i - 1]);
            }
        }
        if char_is_word(c) {
            if !empty && !inside {
                out.push(' ');
            }
            out.push(char_ascii_lower(c));
            empty = false;
            inside = true;
        } else {
            inside = false;
        }
        i += 1;
    }
    assert(chars@.take(i as int) == s@);
    out
}

/// Characters that belong to no word leave no trace at the end of a text.
pub proof fn lemma_plain_words_ignores_punctuation(s: Seq<char>, c: char)
    requires
        !is_word_char(c),
    ensures
        plain_words(s.push(c)) == plain_words(s),
{
    assert(s.push(c).drop_last() == s);
}

/// Texts that differ only in the case of ASCII letters have the same words.
pub proof fn lemma_plain_words_ignores_case(a: Seq<char>, b: Seq<char>)
    requires
        a.len() == b.len(),
        forall|i: int| 0 <= i < a.len() ==> ascii_lower(#[trigger] a[i]) == ascii_lower(b[i]),
    ensures
        plain_words(a) == plain_words(b),
    decreases a.len(),
{
    if a.len() > 0 {
        let ra = a.drop_last();
        let rb = b.drop_last();
        assert forall|i: int| 0 <= i < ra.len() implies ascii_lower(#[trigger] ra[i])
            == ascii_lower(rb[i]) by {
            assert(ra[i] == a[i]);
        }
        lemma_plain_words_ignores_case(ra, rb);
        assert forall|i: int| 0 <= i < a.len() implies is_word_char(#[trigger] a[i])
            == is_word_char(b[i]) by {
            lemma_lower_keeps_class(a[i], b[i]);
        }
        assert(a[a.len() - 1] == a.last());
    }
}

proof fn lemma_lower_keeps_class(a: char, b: char)
    requires
        ascii_lower(a) == ascii_lower(b),
    ensures
        is_word_char(a) == is_word_char(b),
{
}

} // verus!
