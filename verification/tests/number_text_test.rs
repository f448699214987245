use tryparse::number_text::{comma_separated_number_text, fraction_parts, number_text_from_matches};

fn text_of(s: &str) -> Option<String> {
    comma_separated_number_text(s)
}

#[test]
fn currency_and_separators_are_removed() {
    assert_eq!(text_of("$1,234.56").as_deref(), Some("1234.56"));
    assert_eq!(text_of("¥1,234").as_deref(), Some("1234"));
    assert_eq!(text_of("1,234,567.89").as_deref(), Some("1234567.89"));
    assert_eq!(text_of("-$5").as_deref(), Some("-5"));
    assert_eq!(text_of("1.23e5").as_deref(), Some("1.23e5"));
}

#[test]
fn percent_sign_is_dropped_without_scaling() {
    assert_eq!(text_of("50%").as_deref(), Some("50"));
}

#[test]
fn text_without_exactly_one_number_gives_none() {
    assert_eq!(text_of("no digits here"), None);
    assert_eq!(text_of("1 and 2"), None);
    assert_eq!(text_of(""), None);
}

#[test]
fn fraction_sides_are_split_at_the_first_slash_and_trimmed() {
    assert_eq!(fraction_parts("1/2"), Some(("1".to_string(), "2".to_string())));
    assert_eq!(fraction_parts(" 3 / 4 "), Some(("3".to_string(), "4".to_string())));
    assert_eq!(fraction_parts("a/b/c"), Some(("a".to_string(), "b/c".to_string())));
    assert_eq!(fraction_parts("12"), None);
    assert_eq!(fraction_parts("/"), Some((String::new(), String::new())));
}

#[test]
fn european_notation_reads_dots_as_thousands_and_comma_as_decimals() {
    assert_eq!(text_of("€1.234,56").as_deref(), Some("1234.56"));
    assert_eq!(text_of("1.234.567,89").as_deref(), Some("1234567.89"));
    assert_eq!(text_of("1.5").as_deref(), Some("1.5"));
    assert_eq!(text_of("1,234.56").as_deref(), Some("1234.56"));
}

#[test]
fn matches_are_turned_into_text() {
    assert_eq!(number_text_from_matches(&vec!["$1,234%".to_string()]).as_deref(), Some("1234"));
    assert_eq!(number_text_from_matches(&vec![]), None);
    assert_eq!(number_text_from_matches(&vec!["1".to_string(), "2".to_string()]), None);
}
