use default_mac::text::{
    chars_of, contains, is_whitespace, split_fields, split_rows, string_of, trim,
};

fn chars(s: &str) -> Vec<char> {
    s.chars().collect()
}

fn strings(parts: Vec<Vec<char>>) -> Vec<String> {
    parts.iter().map(|p| p.iter().collect::<String>()).collect()
}

#[test]
fn whitespace_is_what_the_standard_library_calls_whitespace() {
    let mut n: u32 = 0;
    while n <= 0x10FFFF {
        if let Some(c) = char::from_u32(n) {
            assert_eq!(is_whitespace(c), c.is_whitespace(), "code point {:#x}", n);
        }
        n += 1;
    }
}

#[test]
fn chars_and_strings_convert_both_ways() {
    assert_eq!(chars_of("a\u{e9}\u{1F600}z"), vec!['a', '\u{e9}', '\u{1F600}', 'z']);
    assert_eq!(chars_of(""), Vec::<char>::new());
    assert_eq!(string_of(&chars("eth0")), "eth0");
    assert_eq!(string_of(&Vec::new()), "");
}

#[test]
fn fields_are_runs_between_whitespace() {
    assert_eq!(strings(split_fields(&chars("eth0\t00000000  0102A8C0\r"))), vec![
        "eth0", "00000000", "0102A8C0"
    ]);
    assert_eq!(strings(split_fields(&chars("  one  "))), vec!["one"]);
    assert_eq!(strings(split_fields(&chars("a\u{a0}b\u{3000}c"))), vec!["a", "b", "c"]);
    assert!(split_fields(&chars("")).is_empty());
    assert!(split_fields(&chars(" \t \r ")).is_empty());
}

#[test]
fn fields_agree_with_split_whitespace() {
    for s in ["", " ", "a", " a b  c ", "\ta\nb", "x\u{2003}y", "interface: en0", "a\u{0085}b"] {
        let expected: Vec<String> = s.split_whitespace().map(|f| f.to_string()).collect();
        assert_eq!(strings(split_fields(&chars(s))), expected, "{:?}", s);
    }
}

#[test]
fn rows_are_the_pieces_between_line_feeds() {
    assert_eq!(strings(split_rows(&chars("a\nb\nc"))), vec!["a", "b", "c"]);
    assert_eq!(strings(split_rows(&chars("a\n"))), vec!["a", ""]);
    assert_eq!(strings(split_rows(&chars(""))), vec![""]);
    assert_eq!(strings(split_rows(&chars("\n\n"))), vec!["", "", ""]);
    assert_eq!(strings(split_rows(&chars("a\r\nb"))), vec!["a\r", "b"]);
}

#[test]
fn trim_drops_whitespace_at_both_ends_only() {
    assert_eq!(string_of(&trim(&chars("  aa:bb \n"))), "aa:bb");
    assert_eq!(string_of(&trim(&chars("a b"))), "a b");
    assert_eq!(string_of(&trim(&chars(" \t\n"))), "");
    assert_eq!(string_of(&trim(&chars(""))), "");
    assert_eq!(string_of(&trim(&chars("\u{3000}x\u{a0}"))), "x");
}

#[test]
fn trim_agrees_with_the_standard_library() {
    for s in ["", " ", "a", " a b  c ", "\ta\nb\r\n", "\u{2003}y ", "00:1a:2b:3c:4d:5e\n"] {
        assert_eq!(string_of(&trim(&chars(s))), s.trim(), "{:?}", s);
    }
}

#[test]
fn contains_finds_a_run_anywhere() {
    assert!(contains(&chars("  interface: en0"), &chars("interface")));
    assert!(contains(&chars("interface"), &chars("interface")));
    assert!(contains(&chars("xinterface"), &chars("interface")));
    assert!(!contains(&chars("interfac"), &chars("interface")));
    assert!(!contains(&chars("inter face"), &chars("interface")));
    assert!(!contains(&chars(""), &chars("interface")));
    assert!(contains(&chars("abc"), &chars("")));
    assert!(contains(&chars(""), &chars("")));
}
