use web_value_tracker::extract::{clean_value, strip_quotes};

#[test]
fn quotes_and_blanks_are_taken_off() {
    assert_eq!(clean_value("\"  $12.99 \""), "$12.99");
    assert_eq!(clean_value("\"42\""), "42");
}

#[test]
fn text_without_quotes_is_trimmed_only() {
    assert_eq!(clean_value("  a b  "), "a b");
    assert_eq!(clean_value("null"), "null");
    assert_eq!(clean_value("\t\n 7 \r\n"), "7");
}

#[test]
fn a_quote_at_one_end_only_stays() {
    assert_eq!(clean_value("\"abc"), "\"abc");
    assert_eq!(clean_value("abc\""), "abc\"");
    assert_eq!(clean_value(" \"abc\""), "\"abc\"");
}

#[test]
fn quotes_around_nothing_leave_nothing() {
    assert_eq!(clean_value("\"\""), "");
    assert_eq!(clean_value("\""), "");
    assert_eq!(clean_value(""), "");
    assert_eq!(clean_value("\"   \""), "");
}

#[test]
fn only_the_outermost_quotes_go() {
    assert_eq!(clean_value("\"\"x\"\""), "\"x\"");
    assert_eq!(strip_quotes("\"a\\\"b\""), "a\\\"b");
}

#[test]
fn unicode_white_space_is_trimmed() {
    assert_eq!(clean_value("\"\u{00A0}\u{3000}12 €\u{2003}\""), "12 €");
}

#[test]
fn strip_quotes_keeps_the_blanks() {
    assert_eq!(strip_quotes("\" a \""), " a ");
    assert_eq!(strip_quotes(" \"a\" "), " \"a\" ");
    assert_eq!(strip_quotes("\"é\""), "é");
}
