use govscout::text::{
    chars_of, decimal_string, has_char, join, replace_text, split_and_trim, text_before,
};

#[test]
fn chars_of_hands_out_every_character() {
    assert_eq!(chars_of("aß…\nz"), vec!['a', 'ß', '…', '\n', 'z']);
    assert!(chars_of("").is_empty());
}

#[test]
fn decimal_string_writes_numerals() {
    assert_eq!(decimal_string(0), "0");
    assert_eq!(decimal_string(7), "7");
    assert_eq!(decimal_string(10), "10");
    assert_eq!(decimal_string(1000), "1000");
    assert_eq!(decimal_string(4294967295), "4294967295");
    assert_eq!(decimal_string(u64::MAX), "18446744073709551615");
}

#[test]
fn replace_text_agrees_with_the_standard_library() {
    let cases = [
        ("", "", "X"),
        ("abc", "", "X"),
        ("abc", "b", ""),
        ("aaaa", "aa", "b"),
        ("aaa", "aa", "b"),
        ("key=SECRET&other=SECRET", "SECRET", "[REDACTED]"),
        ("no match here", "xyz", "!"),
        ("ab", "abc", "!"),
        ("ababab", "aba", "-"),
        ("][][", "][", "[REDACTED]"),
        ("ünï&amp;cödé&amp;", "&amp;", "&"),
    ];
    for (text, pat, to) in cases {
        assert_eq!(replace_text(text, pat, to), text.replace(pat, to), "{:?}", (text, pat, to));
    }
}

#[test]
fn text_before_orders_like_the_standard_library() {
    let texts = ["", "a", "ab", "b", "01/10/2025", "03/15/2025", "12/31/2024", "é", "z", "€"];
    for a in texts {
        for b in texts {
            assert_eq!(text_before(a, b), a < b, "{:?} < {:?}", a, b);
        }
    }
}

#[test]
fn join_puts_the_separator_between() {
    let none: Vec<String> = Vec::new();
    assert_eq!(join(&none, ", "), "");
    assert_eq!(join(&vec!["a".to_string()], ", "), "a");
    assert_eq!(
        join(&vec!["a".to_string(), "".to_string(), "c".to_string()], " AND "),
        "a AND  AND c"
    );
}

#[test]
fn split_and_trim_agrees_with_the_standard_library() {
    for case in ["", ",", "a", "a,b", " a , b ,c ", "541512, 541511", ",,", "x,", "\u{a0}q\t,\n"] {
        let expected: Vec<String> = case.split(',').map(|s| s.trim().to_string()).collect();
        assert_eq!(split_and_trim(case, ','), expected, "case {:?}", case);
        assert_eq!(has_char(case, ','), case.contains(','));
    }
}
