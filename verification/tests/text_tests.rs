use gcli::text::{
    chars_of, decimal_string, eq_ignore_ascii_case, is_whitespace, last_line, split_lines, trim,
    truncate_chars,
};

#[test]
fn split_lines_follows_str_lines() {
    for s in ["", "a", "a\n", "a\nb", "a\r\nb\r\n", "\n", "\n\n", "x\ry", "a\r", "one\ntwo\n\nthree"] {
        let expected: Vec<String> = s.lines().map(|l| l.to_string()).collect();
        assert_eq!(split_lines(s), expected, "input {:?}", s);
    }
}

#[test]
fn split_lines_drops_cr_before_newline_only() {
    assert_eq!(split_lines("a\r\nb\r"), vec!["a".to_string(), "b\r".to_string()]);
}

#[test]
fn last_line_of_ollama_stream() {
    let body = "{\"done\":false}\n{\"done\":true,\"message\":\"hi\"}\n";
    assert_eq!(last_line(body), "{\"done\":true,\"message\":\"hi\"}");
    assert_eq!(last_line(""), "");
    assert_eq!(last_line("only"), "only");
    assert_eq!(last_line("a\n\n"), "");
}

#[test]
fn trim_matches_str_trim() {
    for s in ["", "   ", "  x  ", "\t/exit\n", "\u{3000}a b\u{a0}", "\u{85}z", "no"] {
        assert_eq!(trim(s), s.trim(), "input {:?}", s);
    }
}

#[test]
fn whitespace_matches_char_is_whitespace() {
    for u in 0u32..0x3100 {
        if let Some(c) = char::from_u32(u) {
            assert_eq!(is_whitespace(c), c.is_whitespace(), "char {:x}", u);
        }
    }
}

#[test]
fn truncate_counts_characters() {
    assert_eq!(truncate_chars("héllo", 2), "hé");
    assert_eq!(truncate_chars("abc", 10), "abc");
    assert_eq!(truncate_chars("abc", 0), "");
    let long: String = std::iter::repeat('x').take(9000).collect();
    assert_eq!(truncate_chars(&long, 8000).chars().count(), 8000);
}

#[test]
fn ascii_case_folding() {
    let a = chars_of("/EXIT");
    let b = chars_of("/exit");
    assert!(eq_ignore_ascii_case(&a, &b));
    let c = chars_of("/exiT!");
    assert!(!eq_ignore_ascii_case(&c, &b));
    let d = chars_of("/éxit");
    assert!(!eq_ignore_ascii_case(&d, &b));
}

#[test]
fn decimal_rendering() {
    for n in [0u64, 7, 10, 42, 4294967295, u64::MAX] {
        assert_eq!(decimal_string(n), n.to_string());
    }
}
