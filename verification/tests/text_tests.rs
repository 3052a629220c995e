use report_etl::text::{chars_of, contains, parse_decimal};

#[test]
fn chars_of_gives_every_character() {
    assert_eq!(chars_of(""), Vec::<char>::new());
    assert_eq!(chars_of("a/b"), vec!['a', '/', 'b']);
    assert_eq!(chars_of("é→x"), vec!['é', '→', 'x']);
}

#[test]
fn contains_finds_the_needle_anywhere() {
    assert!(contains("hyperlink-info", "hyperlink-info"));
    assert!(contains("xx-hyperlink-info", "hyperlink-info"));
    assert!(contains("hyperlink-info-table", "hyperlink-info"));
    assert!(contains("a hyperlink-info b", "hyperlink-info"));
}

#[test]
fn contains_rejects_what_is_not_there() {
    assert!(!contains("", "hyperlink-info"));
    assert!(!contains("hyperlink-inf", "hyperlink-info"));
    assert!(!contains("hyperlink_info", "hyperlink-info"));
    assert!(!contains("hyperlink-hyperlink-inf0", "hyperlink-info"));
    assert!(!contains("info-hyperlink", "hyperlink-info"));
}

#[test]
fn contains_takes_the_empty_needle_everywhere() {
    assert!(contains("", ""));
    assert!(contains("abc", ""));
}

#[test]
fn contains_handles_repeated_prefixes() {
    assert!(contains("aaab", "aab"));
    assert!(contains("ababac", "abac"));
    assert!(!contains("ababab", "abac"));
}

#[test]
fn contains_agrees_with_the_standard_search() {
    let hays = ["", "a", "ab", "aab", "abab", "hyperlink-info", "ééé", "xéy→z"];
    let needles = ["", "a", "b", "ab", "ba", "aab", "é", "éé", "→z", "info"];
    for hay in hays {
        for needle in needles {
            assert_eq!(contains(hay, needle), hay.contains(needle), "{:?} in {:?}", needle, hay);
        }
    }
}

#[test]
fn parse_decimal_reads_plain_numbers() {
    assert_eq!(parse_decimal("0"), Some(0));
    assert_eq!(parse_decimal("7"), Some(7));
    assert_eq!(parse_decimal("42"), Some(42));
    assert_eq!(parse_decimal("1234567890"), Some(1234567890));
}

#[test]
fn parse_decimal_takes_leading_zeros_and_one_plus() {
    assert_eq!(parse_decimal("007"), Some(7));
    assert_eq!(parse_decimal("+42"), Some(42));
    assert_eq!(parse_decimal("+0"), Some(0));
}

#[test]
fn parse_decimal_rejects_everything_else() {
    assert_eq!(parse_decimal(""), None);
    assert_eq!(parse_decimal("+"), None);
    assert_eq!(parse_decimal("++1"), None);
    assert_eq!(parse_decimal("-1"), None);
    assert_eq!(parse_decimal("-0"), None);
    assert_eq!(parse_decimal(" 42"), None);
    assert_eq!(parse_decimal("42 "), None);
    assert_eq!(parse_decimal("4 2"), None);
    assert_eq!(parse_decimal("42a"), None);
    assert_eq!(parse_decimal("a42"), None);
    assert_eq!(parse_decimal("4.2"), None);
    assert_eq!(parse_decimal("0x10"), None);
    assert_eq!(parse_decimal("１２"), None);
    assert_eq!(parse_decimal("<b>42</b>"), None);
}

#[test]
fn parse_decimal_stops_at_the_largest_number() {
    let largest = usize::MAX.to_string();
    assert_eq!(parse_decimal(&largest), Some(usize::MAX));
    let mut too_large = largest.clone();
    too_large.push('0');
    assert_eq!(parse_decimal(&too_large), None);
    let next = format!("{}", usize::MAX as u128 + 1);
    assert_eq!(parse_decimal(&next), None);
    assert_eq!(parse_decimal("99999999999999999999999999999999999999999"), None);
}

#[test]
fn parse_decimal_agrees_with_the_standard_parser() {
    let inputs = [
        "", "0", "00", "1", "+1", "-1", "+", "-", "+-1", "1+", "12", "12x", "x12", " 12", "12 ",
        "18446744073709551615", "18446744073709551616", "018446744073709551615",
        "4294967295", "4294967296", "９", "1_000", "1e3", "+007",
    ];
    for input in inputs {
        assert_eq!(parse_decimal(input), input.parse::<usize>().ok(), "{:?}", input);
    }
}
