use version_switcher::text::{
    chars_of, contains_text, decimal_text, framed, glued, occurs_in, same_text, to_ascii_lower,
};

#[test]
fn chars_of_gives_the_characters() {
    assert_eq!(chars_of("aß日"), vec!['a', 'ß', '日']);
    assert_eq!(chars_of(""), Vec::<char>::new());
}

#[test]
fn to_ascii_lower_folds_ascii_capitals_only() {
    for code in 0u32..0x250 {
        if let Some(c) = char::from_u32(code) {
            assert_eq!(to_ascii_lower(c), c.to_ascii_lowercase());
        }
    }
    assert_eq!(to_ascii_lower('A'), 'a');
    assert_eq!(to_ascii_lower('Z'), 'z');
    assert_eq!(to_ascii_lower('@'), '@');
    assert_eq!(to_ascii_lower('['), '[');
    assert_eq!(to_ascii_lower('Ä'), 'Ä');
}

#[test]
fn decimal_text_of_small_numbers() {
    assert_eq!(decimal_text(0), "0");
    assert_eq!(decimal_text(7), "7");
    assert_eq!(decimal_text(9), "9");
    assert_eq!(decimal_text(10), "10");
    assert_eq!(decimal_text(100), "100");
    assert_eq!(decimal_text(12345), "12345");
    assert_eq!(decimal_text(90807), "90807");
}

#[test]
fn decimal_text_agrees_with_to_string() {
    let numbers = [1usize, 11, 19, 20, 99, 101, 999, 1000, 65535, 4294967295, usize::MAX];
    for n in numbers {
        assert_eq!(decimal_text(n), n.to_string());
    }
}

#[test]
fn glued_and_framed_put_texts_together() {
    assert_eq!(glued("ab", "cd"), "abcd");
    assert_eq!(glued("", "x"), "x");
    assert_eq!(framed("<", "mid", ">"), "<mid>");
    assert_eq!(framed("", "", ""), "");
}

#[test]
fn occurs_in_agrees_with_contains() {
    let cases = [
        ("", ""),
        ("", "abc"),
        ("a", ""),
        ("abc", "abc"),
        ("bc", "abc"),
        ("ab", "abc"),
        ("ac", "abc"),
        ("abcd", "abc"),
        ("aab", "aaab"),
        ("aba", "abba"),
        ("ö", "Köln"),
        ("pyth", "C:\\python311"),
        ("311", "C:\\python311"),
        ("312", "C:\\python311"),
    ];
    for (needle, hay) in cases {
        assert_eq!(occurs_in(needle, hay), hay.contains(needle), "{:?} in {:?}", needle, hay);
    }
}

#[test]
fn same_text_compares_exactly() {
    assert!(same_text("", ""));
    assert!(same_text("Cancelled", "Cancelled"));
    assert!(!same_text("Cancelled", "cancelled"));
    assert!(!same_text("a", "ab"));
}

#[test]
fn contains_text_compares_exactly() {
    let list = vec!["one".to_string(), "Two".to_string()];
    assert!(contains_text(&list, &"one".to_string()));
    assert!(contains_text(&list, &"Two".to_string()));
    assert!(!contains_text(&list, &"two".to_string()));
    assert!(!contains_text(&Vec::new(), &"one".to_string()));
}
