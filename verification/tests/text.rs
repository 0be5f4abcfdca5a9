use netscanner::text::{
    chars_of, comes_before, decimal_text, find, is_whitespace, occurs, padded_text, signed_decimal_text,
    split, text_of, trimmed_name, Separator,
};

#[test]
fn decimal_numbers() {
    assert_eq!(decimal_text(0), "0");
    assert_eq!(decimal_text(907), "907");
    assert_eq!(decimal_text(u64::MAX), u64::MAX.to_string());
    assert_eq!(signed_decimal_text(0), "0");
    assert_eq!(signed_decimal_text(-12), "-12");
    assert_eq!(signed_decimal_text(i32::MIN), i32::MIN.to_string());
    assert_eq!(signed_decimal_text(i32::MAX), i32::MAX.to_string());
}

#[test]
fn whitespace_is_that_of_std() {
    let mut code: u32 = 0;
    while code <= 0x10_ffff {
        if let Some(c) = char::from_u32(code) {
            assert_eq!(is_whitespace(c), c.is_whitespace());
        }
        code += 1;
    }
}

#[test]
fn splitting() {
    let s = chars_of("a b\n.c.");
    let texts = |parts: Vec<Vec<char>>| -> Vec<String> {
        parts.iter().map(|p| p.iter().collect::<String>()).collect()
    };
    assert_eq!(texts(split(&s, Separator::Dot)), vec!["a b\n", "c", ""]);
    assert_eq!(texts(split(&s, Separator::LineFeed)), vec!["a b", ".c."]);
    assert_eq!(texts(split(&s, Separator::White)), vec!["a", "b", ".c."]);
    assert_eq!(texts(split(&chars_of(""), Separator::Dot)), vec![""]);
}

#[test]
fn parts_of_a_text() {
    let s = chars_of("router.local. \r");
    assert_eq!(text_of(&s, 0, 6), "router");
    assert_eq!(text_of(&s, 6, 6), "");
    assert_eq!(trimmed_name(&s, 0), "router.local");
    assert_eq!(trimmed_name(&chars_of("x =  a..."), 3), "a");
    assert_eq!(trimmed_name(&chars_of("..."), 0), "");
}

#[test]
fn searching() {
    let s = chars_of("name name = x");
    let pattern = chars_of("name = ");
    assert_eq!(find(&s, &pattern), Some(5));
    assert_eq!(find(&pattern, &s), None);
    assert_eq!(find(&s, &chars_of("")), Some(0));
    assert!(occurs(&s, &pattern, 5));
    assert!(!occurs(&s, &pattern, 0));
    assert!(!occurs(&s, &pattern, 9));
}

#[test]
fn order_of_texts_is_that_of_std() {
    let texts = ["", "a", "aa", "ab", "b", "é", "ß", "zz", "\u{10ffff}", "\u{ffff}"];
    for a in texts {
        for b in texts {
            assert_eq!(comes_before(a, b), a <= b);
        }
    }
}

#[test]
fn padding() {
    assert_eq!(padded_text("", 2), "  ");
    assert_eq!(padded_text("é", 2), format!("{:<2}", "é"));
    assert_eq!(padded_text("10.0.0.1", 2), "10.0.0.1");
}
