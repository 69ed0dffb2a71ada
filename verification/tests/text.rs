use jumpserver_client::text::{
    char_ascii_lower, char_is_whitespace, chars_ascii_lowercase, chars_end_with, chars_order,
    find_char, from_chars, push_chars, push_decimal, same_text, slice_chars, split_chars,
    to_chars, trim_chars, trim_leading, TextOrder,
};

fn chars(s: &str) -> Vec<char> {
    s.chars().collect()
}

fn text(v: &[char]) -> String {
    v.iter().collect()
}

#[test]
fn order_of_texts_is_the_order_of_str() {
    let samples = ["", "a", "A", "ab", "b", "é", "z", "\u{10ffff}", "a\u{0}", "~", "日本"];
    for a in samples {
        for b in samples {
            let expected = if a < b {
                TextOrder::Less
            } else if a == b {
                TextOrder::Equal
            } else {
                TextOrder::Greater
            };
            assert_eq!(chars_order(&chars(a), &chars(b)), expected, "{:?} {:?}", a, b);
            assert_eq!(same_text(a, b), a == b);
        }
    }
}

#[test]
fn strings_and_characters_convert_both_ways() {
    for s in ["", "abc", "日本語 text", "a\u{301}"] {
        assert_eq!(to_chars(s), chars(s));
        assert_eq!(from_chars(&chars(s)), s);
    }
    let mut s = String::from("x=");
    push_chars(&mut s, &chars("yz"));
    assert_eq!(s, "x=yz");
    assert_eq!(text(&slice_chars(&chars("hello"), 1, 3)), "el");
    assert_eq!(text(&slice_chars(&chars("hello"), 5, 5)), "");
}

#[test]
fn leading_characters_are_dropped() {
    assert_eq!(text(&trim_leading(&chars("..a.b."), '.')), "a.b.");
    assert_eq!(text(&trim_leading(&chars("..."), '.')), "");
    assert_eq!(text(&trim_leading(&chars("a."), '.')), "a.");
    assert_eq!(text(&trim_leading(&chars(""), '.')), "");
}

#[test]
fn suffixes() {
    assert!(chars_end_with(&chars("a.example.com"), &chars(".example.com")));
    assert!(chars_end_with(&chars("abc"), &chars("")));
    assert!(chars_end_with(&chars("abc"), &chars("abc")));
    assert!(!chars_end_with(&chars("bc"), &chars("abc")));
    assert!(!chars_end_with(&chars("abd"), &chars("bc")));
}

#[test]
fn splitting_keeps_empty_pieces() {
    let pieces = |s: &str| -> Vec<String> {
        split_chars(&chars(s), ';').iter().map(|p| text(p)).collect()
    };
    assert_eq!(pieces("a;b;c"), vec!["a", "b", "c"]);
    assert_eq!(pieces(""), vec![""]);
    assert_eq!(pieces(";"), vec!["", ""]);
    assert_eq!(pieces("a;;b;"), vec!["a", "", "b", ""]);
    assert_eq!(pieces("no separator"), vec!["no separator"]);
    for s in ["a;b", ";;", "x", "", "; ;"] {
        let expected: Vec<String> = s.split(';').map(str::to_string).collect();
        assert_eq!(pieces(s), expected);
    }
    assert_eq!(find_char(&chars("a=b=c"), 0, '='), 1);
    assert_eq!(find_char(&chars("a=b=c"), 2, '='), 3);
    assert_eq!(find_char(&chars("a=b=c"), 4, '='), 5);
}

#[test]
fn trimming_is_the_trimming_of_str() {
    for s in [
        "",
        " ",
        "a",
        "  a b  ",
        "\t\r\n x \u{b}\u{c}",
        "\u{85}\u{a0}x\u{1680}\u{2000}\u{200a}",
        "\u{2028}\u{2029}\u{202f}\u{205f}\u{3000}",
        "\u{200b}x\u{200b}",
        "\u{180e}x",
        "\u{feff}x ",
    ] {
        assert_eq!(text(&trim_chars(&chars(s))), s.trim(), "{:?}", s);
    }
    for code in 0..0x3100u32 {
        if let Some(c) = char::from_u32(code) {
            assert_eq!(char_is_whitespace(c), c.is_whitespace(), "{:x}", code);
        }
    }
}

#[test]
fn lower_case_touches_ascii_capitals_only() {
    assert_eq!(text(&chars_ascii_lowercase(&chars("JMS_CsrfToken-É"))), "jms_csrftoken-É");
    for code in 0..0x250u32 {
        if let Some(c) = char::from_u32(code) {
            assert_eq!(char_ascii_lower(c), c.to_ascii_lowercase());
        }
    }
}

#[test]
fn decimal_notation() {
    for n in [0u64, 7, 10, 42, 255, 65535, 1_000_000, u64::MAX] {
        let mut out = chars("n=");
        push_decimal(&mut out, n);
        assert_eq!(text(&out), format!("n={}", n));
    }
}
