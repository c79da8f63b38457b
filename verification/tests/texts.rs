use pbuild::text::{
    chain, chars_of, dotted, is_whitespace, join, same_text, signed_decimal, split, trim,
    unsigned_decimal,
};

fn strings(items: &[&str]) -> Vec<String> {
    items.iter().map(|s| s.to_string()).collect()
}

#[test]
fn chars_of_text() {
    assert_eq!(chars_of("aé✓"), vec!['a', 'é', '✓']);
    assert_eq!(chars_of(""), Vec::<char>::new());
}

#[test]
fn same_text_compares_characters() {
    assert!(same_text("", ""));
    assert!(same_text("spec", "spec"));
    assert!(!same_text("spec", "Spec"));
    assert!(!same_text("spec", "specs"));
    assert!(!same_text("a", ""));
}

#[test]
fn split_on_one_character() {
    assert_eq!(split("target:linux", ":"), strings(&["target", "linux"]));
    assert_eq!(split("target", ":"), strings(&["target"]));
    assert_eq!(split("", ":"), strings(&[""]));
    assert_eq!(split(":", ":"), strings(&["", ""]));
    assert_eq!(split("a::b", ":"), strings(&["a", "", "b"]));
    assert_eq!(split("a:b:", ":"), strings(&["a", "b", ""]));
    assert_eq!(split("é:✓", ":"), strings(&["é", "✓"]));
}

#[test]
fn split_on_a_word() {
    assert_eq!(split("a:b OR c:d", "OR"), strings(&["a:b ", " c:d"]));
    assert_eq!(split("aORbORc", "OR"), strings(&["a", "b", "c"]));
    assert_eq!(split("OROR", "OR"), strings(&["", "", ""]));
    assert_eq!(split("ORO", "OR"), strings(&["", "O"]));
    assert_eq!(split("OOR", "OR"), strings(&["O", ""]));
    assert_eq!(split("O", "OR"), strings(&["O"]));
    assert_eq!(split("or", "OR"), strings(&["or"]));
    assert_eq!(split("aaa", "aa"), strings(&["", "a"]));
}

#[test]
fn split_agrees_with_std() {
    for text in ["", "a", "a/b", "/a/b/", "//", "a//b", "aXYbXYc", "XYXY", "XXY", "XYX"] {
        for pattern in ["/", "XY", "X"] {
            let expected: Vec<String> = text.split(pattern).map(|s| s.to_string()).collect();
            assert_eq!(split(text, pattern), expected);
        }
    }
}

#[test]
fn trim_cuts_white_space() {
    assert_eq!(trim("  a b \t\n"), "a b");
    assert_eq!(trim("a"), "a");
    assert_eq!(trim(""), "");
    assert_eq!(trim(" \t "), "");
    assert_eq!(trim("\u{a0}x\u{3000}"), "x");
    assert_eq!(trim("\u{200b}x"), "\u{200b}x");
}

#[test]
fn whitespace_agrees_with_std() {
    let mut n: u32 = 0;
    while n < 0x11000 {
        if let Some(c) = char::from_u32(n) {
            assert_eq!(is_whitespace(c), c.is_whitespace());
        }
        n += 1;
    }
}

#[test]
fn join_puts_separator_between() {
    assert_eq!(join(&strings(&[]), ", "), "");
    assert_eq!(join(&strings(&["a"]), ", "), "a");
    assert_eq!(join(&strings(&["a", "b", "c"]), ", "), "a, b, c");
    assert_eq!(join(&strings(&["", ""]), "-"), "-");
}

#[test]
fn chain_and_dotted() {
    assert_eq!(chain("ab", "cd"), "abcd");
    assert_eq!(chain("", ""), "");
    assert_eq!(dotted("target", "linux"), "target.linux");
}

#[test]
fn decimal_texts() {
    assert_eq!(unsigned_decimal(0), "0");
    assert_eq!(unsigned_decimal(9), "9");
    assert_eq!(unsigned_decimal(10), "10");
    assert_eq!(unsigned_decimal(1234567890), "1234567890");
    assert_eq!(unsigned_decimal(u64::MAX), "18446744073709551615");
    assert_eq!(signed_decimal(0), "0");
    assert_eq!(signed_decimal(-1), "-1");
    assert_eq!(signed_decimal(42), "42");
    assert_eq!(signed_decimal(i64::MAX), "9223372036854775807");
    assert_eq!(signed_decimal(i64::MIN), "-9223372036854775808");
}
