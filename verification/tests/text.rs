use notification_hubs::text::{decimal_text, has_prefix, join_text, split_text, text_after};

#[test]
fn decimal_numerals() {
    assert_eq!(decimal_text(0), "0");
    assert_eq!(decimal_text(7), "7");
    assert_eq!(decimal_text(10), "10");
    assert_eq!(decimal_text(1_700_003_600), "1700003600");
    assert_eq!(decimal_text(-1), "-1");
    assert_eq!(decimal_text(-120), "-120");
    assert_eq!(decimal_text(i128::MAX), i128::MAX.to_string());
    assert_eq!(decimal_text(i128::MIN), i128::MIN.to_string());
}

#[test]
fn splitting() {
    assert_eq!(split_text("", ';'), vec![""]);
    assert_eq!(split_text("a", ';'), vec!["a"]);
    assert_eq!(split_text("a;b;c", ';'), vec!["a", "b", "c"]);
    assert_eq!(split_text(";a;;", ';'), vec!["", "a", "", ""]);
    assert_eq!(split_text("\u{e9};\u{fc}", ';'), vec!["\u{e9}", "\u{fc}"]);
}

#[test]
fn joining() {
    assert_eq!(join_text(&vec![], "||"), "");
    assert_eq!(join_text(&vec!["A"], "||"), "A");
    assert_eq!(join_text(&vec!["A", "B"], "||"), "A||B");
    assert_eq!(join_text(&vec!["A", "B", "C"], "||"), "A||B||C");
    assert_eq!(join_text(&vec!["", ""], "||"), "||");
}

#[test]
fn prefixes() {
    assert!(has_prefix("Endpoint=x", "Endpoint="));
    assert!(has_prefix("Endpoint=", "Endpoint="));
    assert!(has_prefix("anything", ""));
    assert!(!has_prefix("Endpoint", "Endpoint="));
    assert!(!has_prefix("endpoint=x", "Endpoint="));
    assert_eq!(text_after("Endpoint=x", 9), "x");
    assert_eq!(text_after("\u{e9}\u{fc}z", 2), "z");
    assert_eq!(text_after("ab", 2), "");
}
