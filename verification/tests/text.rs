use moltis::text::{
    char_is_whitespace, decimal_string, find_char_in, line_ranges, rfind_whitespace_in,
    str_chars, string_from_range, trim_range,
};

#[test]
fn whitespace_matches_std_for_every_char() {
    for u in 0u32..=0x10FFFF {
        if let Some(c) = char::from_u32(u) {
            assert_eq!(char_is_whitespace(c), c.is_whitespace(), "U+{u:04X}");
        }
    }
}

#[test]
fn decimal_rendering() {
    assert_eq!(decimal_string(0), "0");
    assert_eq!(decimal_string(7), "7");
    assert_eq!(decimal_string(10), "10");
    assert_eq!(decimal_string(22050), "22050");
    assert_eq!(decimal_string(u128::MAX), u128::MAX.to_string());
}

fn trimmed(s: &str) -> String {
    let v = str_chars(s);
    let (a, b) = trim_range(&v, 0, v.len());
    string_from_range(&v, a, b)
}

#[test]
fn trim_matches_std() {
    for s in ["", "   ", "a", "  a b  ", "\u{3000}x\u{85}", "\t\n x\r\n", "é ", " ü"] {
        assert_eq!(trimmed(s), s.trim(), "{s:?}");
    }
}

fn ranges_as_lines(s: &str) -> Vec<String> {
    let v = str_chars(s);
    line_ranges(&v).into_iter().map(|(a, b)| string_from_range(&v, a, b)).collect()
}

#[test]
fn lines_match_std() {
    for s in ["", "\n", "a", "a\n", "a\r\nb", "a\n\nb\n", "x\r", "\r\n\r\n", "a\rb\nc", "é\nü\r\n"] {
        let expected: Vec<String> = s.lines().map(|l| l.to_string()).collect();
        assert_eq!(ranges_as_lines(s), expected, "{s:?}");
    }
}

#[test]
fn find_and_rfind() {
    let v = str_chars("ab#c#d e\tf");
    assert_eq!(find_char_in(&v, 0, v.len(), '#'), Some(2));
    assert_eq!(find_char_in(&v, 3, v.len(), '#'), Some(4));
    assert_eq!(find_char_in(&v, 5, v.len(), '#'), None);
    assert_eq!(rfind_whitespace_in(&v, 0, v.len()), Some(8));
    assert_eq!(rfind_whitespace_in(&v, 0, 7), Some(6));
    assert_eq!(rfind_whitespace_in(&v, 0, 5), None);
}
