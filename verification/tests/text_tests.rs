use branchyard::text::{
    from_chars, is_whitespace, join, lex_le_chars, parse_unsigned_chars, replace_chars, split_lines,
    to_chars, trim_str, u64_to_decimal,
};

fn lines_of(s: &str) -> Vec<String> {
    split_lines(&to_chars(s)).iter().map(|l| from_chars(l)).collect()
}

#[test]
fn decimal_formatting() {
    for n in [0u64, 7, 10, 42, 1000, u64::MAX] {
        assert_eq!(u64_to_decimal(n), n.to_string());
    }
}

#[test]
fn trim_matches_std() {
    for s in ["", "  ", " a ", "\tab\r\n", "\u{2003}x\u{200a}", "a b", "\u{85}z"] {
        assert_eq!(trim_str(s), s.trim());
    }
}

#[test]
fn whitespace_matches_std() {
    for c in ['\t', '\n', ' ', 'a', '\u{a0}', '\u{1680}', '\u{2028}', '\u{3000}', '\u{200b}', '0'] {
        assert_eq!(is_whitespace(c), c.is_whitespace());
    }
}

#[test]
fn parse_matches_std_u32() {
    for s in ["0", "4294967295", "4294967296", "+1", "-1", "", "12a", "007"] {
        let ours = parse_unsigned_chars(&to_chars(s), u32::MAX);
        assert_eq!(ours, s.parse::<u32>().ok(), "input {s:?}");
    }
}

#[test]
fn join_follows_path_join() {
    assert_eq!(join("/ws", "worktrees"), "/ws/worktrees");
    assert_eq!(join("/ws/", "worktrees"), "/ws/worktrees");
    assert_eq!(join("/ws", "/abs/dir"), "/abs/dir");
    assert_eq!(join("", "rel"), "rel");
    assert_eq!(join("/ws", "./worktrees"), "/ws/./worktrees");
    assert_eq!(join("/ws", ""), "/ws/");
}

#[test]
fn lines_match_std() {
    for s in ["", "a", "a\n", "a\nb", "a\r\nb\r\n", "\n\n", "a\r", " x \n\ny"] {
        let expected: Vec<String> = s.lines().map(|l| l.to_string()).collect();
        assert_eq!(lines_of(s), expected, "input {s:?}");
    }
}

#[test]
fn replace_matches_std() {
    let cases = [("aaa", "aa", "b"), ("{x}{x}", "{x}", "1"), ("abc", "d", "e"), ("", "a", "b"), ("a\\b", "\\", "\\\\")];
    for (s, p, r) in cases {
        let got = from_chars(&replace_chars(&to_chars(s), &to_chars(p), &to_chars(r)));
        assert_eq!(got, s.replace(p, r));
    }
}

#[test]
fn lex_order_matches_string_order() {
    let words = ["", "a", "ab", "b", "Z", "é", "zz", "a\u{10000}"];
    for x in words {
        for y in words {
            assert_eq!(lex_le_chars(&to_chars(x), &to_chars(y)), x <= y, "{x:?} {y:?}");
        }
    }
}
