use gmp_ecm::text::{
    chars_of, contains, find, find_char, rfind_char, same_text, split_chars, starts_with,
    string_of, strip_chars, Strip,
};

fn cs(s: &str) -> Vec<char> {
    s.chars().collect()
}

#[test]
fn chars_and_back() {
    assert_eq!(chars_of("héllo\n"), cs("héllo\n"));
    assert_eq!(chars_of(""), Vec::<char>::new());
    assert_eq!(string_of(&cs("a—b")), "a—b");
    assert_eq!(string_of(&chars_of("round trip ✓")), "round trip ✓");
}

#[test]
fn find_gives_the_first_occurrence() {
    assert_eq!(find(&cs("abcabc"), &cs("bc")), Some(1));
    assert_eq!(find(&cs("abcabc"), &cs("abc")), Some(0));
    assert_eq!(find(&cs("abcabc"), &cs("cab")), Some(2));
    assert_eq!(find(&cs("abcabc"), &cs("abcd")), None);
    assert_eq!(find(&cs("ab"), &cs("abc")), None);
    assert_eq!(find(&cs("abc"), &cs("")), Some(0));
    assert_eq!(find(&cs(""), &cs("")), Some(0));
    assert_eq!(find(&cs("aaab"), &cs("aab")), Some(1));
}

#[test]
fn find_counts_characters_not_bytes() {
    assert_eq!(find(&cs("é#define X"), &cs("#define")), Some(1));
    assert_eq!("é#define X".find("#define"), Some(2));
}

#[test]
fn find_agrees_with_str_find_on_ascii() {
    let hay = ["", "a", "#define ECM_VERSION \"7.0.6\"", "xx-windows-gnu", "aaaa", "abab"];
    let pats = ["", "a", "ab", "ba", "-windows-", "#define ", "\"", "aaaaa"];
    for h in hay {
        for p in pats {
            assert_eq!(find(&cs(h), &cs(p)), h.find(p), "{h:?} {p:?}");
            assert_eq!(contains(&cs(h), &cs(p)), h.contains(p), "{h:?} {p:?}");
            assert_eq!(starts_with(&cs(h), &cs(p)), h.starts_with(p), "{h:?} {p:?}");
        }
    }
}

#[test]
fn same_text_compares_characters() {
    assert!(same_text("musl", "musl"));
    assert!(!same_text("musl", "musl "));
    assert!(!same_text("a", "b"));
    assert!(same_text("", ""));
}

#[test]
fn strip_whitespace_agrees_with_trim() {
    let cases = [
        "", " ", "  a  ", "\t7.0.6\r\n", "a b", "\u{a0}x\u{3000}", "\u{2028}\u{85}",
        "x\u{200b}", "\u{1680}a\u{205f}", " \"gcc -O2\" \n",
    ];
    for c in cases {
        let v = cs(c);
        assert_eq!(string_of(strip_chars(&v, Strip::Whitespace)), c.trim(), "{c:?}");
    }
}

#[test]
fn strip_char_agrees_with_trim_matches() {
    let cases = ["", "\"", "\"\"", "\"gcc\"", "\"\"a\"b\"\"", "a\"", "gcc", " \"x\""];
    for c in cases {
        let v = cs(c);
        assert_eq!(string_of(strip_chars(&v, Strip::Char('"'))), c.trim_matches('"'), "{c:?}");
    }
}

#[test]
fn strip_tests_one_character() {
    assert!(Strip::Whitespace.test(' '));
    assert!(Strip::Whitespace.test('\n'));
    assert!(Strip::Whitespace.test('\u{2003}'));
    assert!(!Strip::Whitespace.test('a'));
    assert!(!Strip::Whitespace.test('\u{200b}'));
    assert!(Strip::Char('"').test('"'));
    assert!(!Strip::Char('"').test(' '));
}

#[test]
fn whitespace_is_what_char_says() {
    for u in 0u32..0x3100 {
        if let Some(c) = char::from_u32(u) {
            assert_eq!(Strip::Whitespace.test(c), c.is_whitespace(), "U+{u:04X}");
        }
    }
}

#[test]
fn find_char_and_rfind_char() {
    assert_eq!(find_char(&cs("0.1.2"), '.'), Some(1));
    assert_eq!(rfind_char(&cs("0.1.2"), '.'), Some(3));
    assert_eq!(find_char(&cs("012"), '.'), None);
    assert_eq!(rfind_char(&cs("012"), '.'), None);
    assert_eq!(rfind_char(&cs(".012"), '.'), Some(0));
    assert_eq!(find_char(&cs(""), '.'), None);
    assert_eq!(rfind_char(&cs(""), '.'), None);
}

#[test]
fn split_agrees_with_str_split() {
    let cases = ["", ".", "7.0.6", "7", "7.", ".7", "a..b", "1.2.3.4.5", "..."];
    for c in cases {
        let got: Vec<String> = split_chars(&cs(c), '.').iter().map(|p| string_of(p)).collect();
        let want: Vec<String> = c.split('.').map(|p| p.to_string()).collect();
        assert_eq!(got, want, "{c:?}");
    }
}

#[test]
fn split_then_join_gives_the_text_back() {
    let c = "line one\nline two\n\nlast";
    let pieces: Vec<String> = split_chars(&cs(c), '\n').iter().map(|p| string_of(p)).collect();
    assert_eq!(pieces.len(), 4);
    assert_eq!(pieces.join("\n"), c);
    assert!(pieces.iter().all(|p| !p.contains('\n')));
}
