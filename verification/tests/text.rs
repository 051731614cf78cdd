use emotitle::text::{
    chars_of, find_from, is_space_char, join_chars, parse_unsigned, push_decimal, split_chars,
    string_of, trim_chars,
};

fn chars(s: &str) -> Vec<char> {
    s.chars().collect()
}

#[test]
fn white_space_is_what_unicode_says() {
    for c in '\0'..=char::MAX {
        assert_eq!(is_space_char(c), c.is_whitespace(), "{:?}", c);
    }
}

#[test]
fn trim_agrees_with_the_standard_trim() {
    for s in ["", " ", "a", "  a b \t\n", "\u{a0}x\u{2003}", "📌 ", " \u{200b} "] {
        assert_eq!(string_of(&trim_chars(&chars(s))), s.trim(), "{s:?}");
    }
}

#[test]
fn split_agrees_with_the_standard_split() {
    for s in ["", " | ", "a | b", " | a |  | b | ", "a|b", "a | | b", " |  | "] {
        let parts: Vec<String> = split_chars(&chars(s), &chars(" | "))
            .iter()
            .map(string_of)
            .collect();
        let expected: Vec<&str> = s.split(" | ").collect();
        assert_eq!(parts, expected, "{s:?}");
    }
    assert_eq!(split_chars(&chars("ab"), &chars("")), vec![chars("ab")]);
}

#[test]
fn join_puts_the_separator_between_neighbours() {
    let parts = vec![chars("a"), chars(""), chars("bc")];
    assert_eq!(string_of(&join_chars(&parts, &chars(", "))), "a, , bc");
    assert_eq!(string_of(&join_chars(&vec![chars("a")], &chars(", "))), "a");
    assert_eq!(string_of(&join_chars(&Vec::new(), &chars(", "))), "");
}

#[test]
fn find_returns_the_first_occurrence() {
    let s = chars("abcabc");
    assert_eq!(find_from(&s, &chars("bc"), 0), Some(1));
    assert_eq!(find_from(&s, &chars("bc"), 2), Some(4));
    assert_eq!(find_from(&s, &chars("bc"), 5), None);
    assert_eq!(find_from(&s, &chars("abcabcd"), 0), None);
    assert_eq!(find_from(&s, &chars(""), 6), Some(6));
    assert_eq!(find_from(&s, &chars(""), 7), None);
}

#[test]
fn decimal_numerals_are_written_without_leading_zeros() {
    for n in [0u64, 7, 10, 99, 100, 4294967295, u64::MAX] {
        let mut out = chars("n=");
        push_decimal(&mut out, n);
        assert_eq!(string_of(&out), format!("n={n}"));
    }
}

#[test]
fn unsigned_numbers_are_read_up_to_the_limit() {
    assert_eq!(parse_unsigned(&chars("18446744073709551615"), u64::MAX), Some(u64::MAX));
    assert_eq!(parse_unsigned(&chars("18446744073709551616"), u64::MAX), None);
    assert_eq!(parse_unsigned(&chars("255"), 255), Some(255));
    assert_eq!(parse_unsigned(&chars("256"), 255), None);
    assert_eq!(parse_unsigned(&chars("+0"), 0), Some(0));
    assert_eq!(parse_unsigned(&chars("1"), 0), None);
    assert_eq!(parse_unsigned(&chars("++1"), 9), None);
}

#[test]
fn strings_and_characters_convert_both_ways() {
    for s in ["", "abc", "📌✅ | 🚀"] {
        assert_eq!(chars_of(s), chars(s));
        assert_eq!(string_of(&chars(s)), s);
    }
}
