use capstone::text::{
    chars_of, is_ascii, is_whitespace, same_text, split, string_of, to_lower, to_upper, trim,
};

fn chars(s: &str) -> Vec<char> {
    s.chars().collect()
}

fn text(chars: &Vec<char>) -> String {
    chars.iter().collect()
}

#[test]
fn strings_and_characters() {
    assert_eq!(chars_of("añb"), vec!['a', 'ñ', 'b']);
    assert_eq!(chars_of(""), Vec::<char>::new());
    assert_eq!(string_of(&vec!['a', 'ñ', 'b']), "añb");
    assert_eq!(string_of(&Vec::new()), "");
    assert!(same_text(&chars("usa"), "usa"));
    assert!(!same_text(&chars("usa"), "us"));
    assert!(!same_text(&chars("us"), "usa"));
    assert!(!same_text(&chars("usa"), "usb"));
    assert!(same_text(&chars(""), ""));
}

#[test]
fn whitespace_is_what_the_standard_library_calls_whitespace() {
    for code in 0u32..0x11_0000 {
        if let Some(c) = char::from_u32(code) {
            assert_eq!(is_whitespace(c), c.is_whitespace(), "{:x}", code);
        }
    }
}

#[test]
fn trimming_is_what_the_standard_library_does() {
    for s in ["", " ", "a", " a", "a ", "  a b  ", "\t\n a \r\n", "\u{a0}x\u{3000}", " \u{200b} ", "a  b"] {
        assert_eq!(text(&trim(&chars(s))), s.trim(), "{:?}", s);
    }
    assert_eq!(text(&trim(&chars("  a b  "))), "a b");
}

#[test]
fn splitting_is_what_the_standard_library_does() {
    for s in ["", ",", "a", "a,b", ",a", "a,", ",,", "a,,b", "1,101,X, 2023-01-10 ,,USA,5", "a;b"] {
        let fields: Vec<String> = split(&chars(s)).iter().map(text).collect();
        let expected: Vec<String> = s.split(',').map(|f| f.to_string()).collect();
        assert_eq!(fields, expected, "{:?}", s);
        assert_eq!(fields.join(","), s);
    }
    let fields: Vec<String> = split(&chars("a,,b")).iter().map(text).collect();
    assert_eq!(fields, vec!["a", "", "b"]);
}

#[test]
fn case_is_changed_as_the_standard_library_changes_it() {
    for s in ["", "abc", "ABC", "Apple Inc.", "a1-b2_c3", "straße", "ΟΔΟΣ", "ǆ", "İstanbul", "españa", "z{`@[Z"] {
        assert_eq!(text(&to_upper(&chars(s))), s.to_uppercase(), "{:?}", s);
        assert_eq!(text(&to_lower(&chars(s))), s.to_lowercase(), "{:?}", s);
    }
    assert_eq!(text(&to_upper(&chars("Apple Inc."))), "APPLE INC.");
    assert_eq!(text(&to_lower(&chars("Apple Inc."))), "apple inc.");
    assert_eq!(text(&to_upper(&chars("straße"))), "STRASSE");
    assert_eq!(text(&to_lower(&chars("ΟΔΟΣ"))), "οδος");
}

#[test]
fn upper_case_stays_upper_case() {
    for s in ["apple inc.", "APPLE INC.", "MiXeD 123", ""] {
        let once = to_upper(&chars(s));
        assert_eq!(to_upper(&once), once);
        assert_eq!(to_upper(&trim(&once)), once);
    }
}

#[test]
fn ascii_text_is_told_from_other_text() {
    assert!(is_ascii(&chars("")));
    assert!(is_ascii(&chars("Apple Inc. \u{7f}")));
    assert!(!is_ascii(&chars("espa\u{f1}a")));
    assert!(!is_ascii(&chars("\u{80}")));
}
