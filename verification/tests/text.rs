//! Characters, lines and numbers in texts.

use boro::text::{
    char_ascii_lower, char_is_ascii_alphanumeric, char_is_digit, char_is_hex_digit, char_is_ident,
    char_is_space, char_is_word, chars_of, find_pattern, parse_u64, parse_usize, push_decimal, sha12,
    split_lines, take_chars, to_plain_words, trim_chars,
};

#[test]
fn white_space_is_that_of_unicode() {
    for c in '\0'..=char::MAX {
        assert_eq!(char_is_space(c), c.is_whitespace(), "{c:?}");
    }
}

#[test]
fn word_characters_are_letters_digits_and_underscores() {
    for c in '\0'..=char::MAX {
        assert_eq!(char_is_word(c), c.is_alphanumeric() || c == '_', "{c:?}");
    }
}

#[test]
fn ascii_classes() {
    for c in '\0'..='\u{2ff}' {
        assert_eq!(char_is_digit(c), c.is_ascii_digit());
        assert_eq!(char_is_hex_digit(c), c.is_ascii_hexdigit());
        assert_eq!(char_is_ascii_alphanumeric(c), c.is_ascii_alphanumeric());
        assert_eq!(char_is_ident(c), c.is_ascii_alphanumeric() || c == '_');
        assert_eq!(char_ascii_lower(c), c.to_ascii_lowercase());
    }
}

#[test]
fn lines_are_split_as_usual() {
    for text in ["", "a", "a\n", "a\n\nb", "a\r\nb\r", "\n", "\r\n", "a\rb\n\r", "ä\nß"] {
        let ours: Vec<String> =
            split_lines(text).iter().map(|l| l.iter().collect::<String>()).collect();
        let usual: Vec<&str> = text.lines().collect();
        assert_eq!(ours, usual, "{text:?}");
    }
}

#[test]
fn texts_are_trimmed() {
    for text in ["", " ", " a b ", "\t\u{3000}x\u{a0}", "x"] {
        let chars = chars_of(text);
        assert_eq!(trim_chars(&chars).iter().collect::<String>(), text.trim());
    }
}

#[test]
fn numbers_are_read_and_written() {
    for text in ["0", "7", "+7", "007", "-1", "", "+", "1 ", "18446744073709551615", "18446744073709551616", "٣"] {
        let chars = chars_of(text);
        assert_eq!(parse_u64(&chars), text.parse::<u64>().ok(), "{text:?}");
        assert_eq!(parse_usize(&chars), text.parse::<usize>().ok(), "{text:?}");
    }
    for n in [0, 9, 10, 1234567890, u64::MAX] {
        let mut text = "n=".to_string();
        push_decimal(&mut text, n);
        assert_eq!(text, format!("n={n}"));
    }
}

#[test]
fn patterns_are_found() {
    for (text, pattern) in [("a..b", ".."), ("...", ".."), ("ab", "c"), ("", ""), ("äb..", "..")] {
        let chars = chars_of(text);
        let expected = text.find(pattern).map(|at| text[..at].chars().count());
        assert_eq!(find_pattern(&chars, pattern), expected);
    }
}

#[test]
fn short_names() {
    for text in ["", "0123456789a", "0123456789ab", "0123456789abc", "ééééééé", "0123456789aé", "0123456789éx", "ab日本語x"] {
        assert_eq!(sha12(text), text.get(..12).unwrap_or(text), "{text:?}");
        assert_eq!(take_chars(text, 3), text.chars().take(3).collect::<String>());
    }
}

#[test]
fn words_are_joined_by_single_spaces() {
    for text in ["", "--", "Foo  Bar", "a_b-c", "É Ü, x"] {
        let usual = text
            .split(|c: char| !c.is_alphanumeric() && c != '_')
            .filter(|word| !word.is_empty())
            .map(str::to_ascii_lowercase)
            .collect::<Vec<_>>()
            .join(" ");
        assert_eq!(to_plain_words(text), usual);
    }
}
