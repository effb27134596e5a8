use git_pre_conflict_core::text::{
    compare_text, find_char, is_whitespace_char, next_line, next_token, parse_u32_chars,
    push_signed, push_unsigned, str_chars, strip_prefix_chars, trim_chars, TextOrder,
};

fn chars(s: &str) -> Vec<char> {
    s.chars().collect()
}

fn text(c: &[char]) -> String {
    c.iter().collect()
}

#[test]
fn whitespace_matches_std() {
    for u in 0u32..0x3100 {
        if let Some(c) = char::from_u32(u) {
            assert_eq!(is_whitespace_char(c), c.is_whitespace(), "{u:#x}");
        }
    }
}

#[test]
fn trim_matches_std() {
    for s in ["", "  ", " a ", "\u{3000}x y\u{2029}", "abc", "\t\n a\r"] {
        let c = chars(s);
        assert_eq!(text(trim_chars(&c)), s.trim());
    }
}

#[test]
fn chars_of_text() {
    assert_eq!(str_chars("añb"), vec!['a', 'ñ', 'b']);
}

#[test]
fn prefix_stripping() {
    let s = chars("CONFLICT (x)");
    let p = chars("CONFLICT (");
    assert_eq!(strip_prefix_chars(&s, &p).map(text), Some("x)".to_string()));
    assert_eq!(strip_prefix_chars(&p, &s), None);
}

#[test]
fn finding_characters() {
    let s = chars("a)b)");
    assert_eq!(find_char(&s, ')'), Some(1));
    assert_eq!(find_char(&s, '('), None);
}

#[test]
fn tokens_match_split_whitespace() {
    let src = "  100644 abc\u{a0}2  ";
    let mut rest = chars(src);
    let mut words = Vec::new();
    while let Some((w, r)) = next_token(&rest) {
        words.push(text(w));
        rest = r.to_vec();
    }
    let expected: Vec<String> = src.split_whitespace().map(|s| s.to_string()).collect();
    assert_eq!(words, expected);
}

#[test]
fn lines_match_std() {
    for src in ["a\nb", "a\r\nb\r\n", "a\n\nb\n", "x\r", "\n", "one"] {
        let mut rest = chars(src);
        let mut got = Vec::new();
        while !rest.is_empty() {
            let (l, r) = next_line(&rest);
            got.push(text(l));
            rest = r.to_vec();
        }
        let expected: Vec<String> = src.lines().map(|s| s.to_string()).collect();
        assert_eq!(got, expected, "{src:?}");
    }
}

#[test]
fn u32_parsing_matches_std() {
    for s in ["0", "7", "+5", "007", "4294967295", "4294967296", "-1", "", "+", "1a", " 1", "99999999999"] {
        assert_eq!(parse_u32_chars(&chars(s)), s.parse::<u32>().ok(), "{s:?}");
    }
}

#[test]
fn decimal_text() {
    let mut s = String::from("n=");
    push_unsigned(&mut s, 0);
    assert_eq!(s, "n=0");
    let mut s = String::new();
    push_unsigned(&mut s, 18446744073709551615);
    assert_eq!(s, "18446744073709551615");
    for n in [0i32, 5, -1, 128, i32::MIN, i32::MAX] {
        let mut s = String::new();
        push_signed(&mut s, n);
        assert_eq!(s, n.to_string());
    }
}

#[test]
fn text_order_matches_string_order() {
    let words = ["", "a", "ab", "b", "B", "é", "z", "a/b", "a.b"];
    for x in words {
        for y in words {
            let got = compare_text(&chars(x), &chars(y));
            let expected = x.cmp(y);
            let same = match (got, expected) {
                (TextOrder::Less, std::cmp::Ordering::Less) => true,
                (TextOrder::Equal, std::cmp::Ordering::Equal) => true,
                (TextOrder::Greater, std::cmp::Ordering::Greater) => true,
                _ => false,
            };
            assert!(same, "{x:?} {y:?}");
        }
    }
}
