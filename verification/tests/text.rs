use track_jobs::text::{chars_of, decimal_text, pad_right, push_decimal, push_joined};

#[test]
fn decimal_numerals() {
    assert_eq!(decimal_text(0), "0");
    assert_eq!(decimal_text(7), "7");
    assert_eq!(decimal_text(10), "10");
    assert_eq!(decimal_text(1234567890), "1234567890");
    assert_eq!(decimal_text(u64::MAX), "18446744073709551615");
    let mut out = "n=".to_string();
    push_decimal(&mut out, 405);
    assert_eq!(out, "n=405");
    let digits: Vec<String> = (0..10).map(decimal_text).collect();
    assert_eq!(digits.concat(), "0123456789");
}

#[test]
fn padding_counts_characters() {
    assert_eq!(pad_right("ab", 5), "ab   ");
    assert_eq!(pad_right("abcde", 5), "abcde");
    assert_eq!(pad_right("abcdef", 5), "abcdef");
    assert_eq!(pad_right("", 0), "");
    assert_eq!(pad_right("", 2), "  ");
    assert_eq!(pad_right("\u{e9}t\u{e9}", 4), "\u{e9}t\u{e9} ");
}

#[test]
fn chars_are_listed_in_order() {
    assert_eq!(chars_of("a\u{e9}\u{1f600}z"), vec!['a', '\u{e9}', '\u{1f600}', 'z']);
    assert_eq!(chars_of(""), Vec::<char>::new());
}

#[test]
fn joining_puts_the_separator_between_parts() {
    let parts = |list: &[&str]| list.iter().map(|s| s.to_string()).collect::<Vec<String>>();
    let mut out = "<".to_string();
    push_joined(&mut out, &parts(&["a", "b", "c"]), ", ");
    assert_eq!(out, "<a, b, c");
    let mut out = String::new();
    push_joined(&mut out, &parts(&[]), ", ");
    assert_eq!(out, "");
    push_joined(&mut out, &parts(&["only"]), ", ");
    assert_eq!(out, "only");
    push_joined(&mut out, &parts(&["", ""]), "-");
    assert_eq!(out, "only-");
}
