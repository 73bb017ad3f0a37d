use linkedin_api::text::{
    ascii_lowercase, contains, parse_usize, push_decimal, replace, same_text, split, strip,
};

fn decimal(n: u64) -> String {
    let mut text = String::new();
    push_decimal(&mut text, n);
    text
}

#[test]
fn numerals_read_back() {
    for n in [0u64, 9, 10, 99, 100, 4294967295, 18446744073709551615] {
        assert_eq!(decimal(n), n.to_string());
        assert_eq!(parse_usize(&decimal(n)), Some(n as usize));
    }
    for text in ["", "+", "-1", "1 ", "0x1", "1_0", "++1", "18446744073709551616", "\u{661}"] {
        assert_eq!(parse_usize(text), text.parse::<usize>().ok());
    }
    assert_eq!(parse_usize("+18446744073709551615"), Some(18446744073709551615));
}

#[test]
fn searching_agrees_with_the_characters() {
    assert!(contains("urn:li:activity:12", "activity"));
    assert!(contains("aab", "ab"));
    assert!(contains("x", ""));
    assert!(contains("", ""));
    assert!(!contains("", "x"));
    assert!(!contains("abc", "abd"));
    assert!(contains("na\u{ef}ve", "\u{ef}v"));
}

#[test]
fn splitting_and_stripping() {
    assert_eq!(split("a-b--c", '-'), vec!["a", "b", "", "c"]);
    assert_eq!(split("", '-'), vec![""]);
    assert_eq!(split("\u{e9}-\u{e8}", '-'), vec!["\u{e9}", "\u{e8}"]);
    assert_eq!(strip("bytes 1-2", "bytes "), "1-2");
    assert_eq!(strip("byte", "bytes "), "byte");
    assert_eq!(strip("bytez 1", "bytes "), "bytez 1");
    assert_eq!(strip("x", ""), "x");
}

#[test]
fn replacing_and_comparing() {
    assert_eq!(replace("urn:li::x:", ':', "%3A"), "urn%3Ali%3A%3Ax%3A");
    assert_eq!(replace("", ':', "%3A"), "");
    assert_eq!(replace("\u{e9}:", ':', ""), "\u{e9}");
    assert!(same_text("abc", "abc"));
    assert!(!same_text("abc", "abd"));
    assert!(!same_text("abc", "ab"));
    assert_eq!(ascii_lowercase("P\u{c9}N.g"), vec!['p', '\u{c9}', 'n', '.', 'g']);
}
