use excel_loader::cell::{push_quote_doubled, push_quoted, Cell};
use excel_loader::decimal::{push_signed, push_unsigned};

fn owned(s: &str) -> String {
    s.to_string()
}

#[test]
fn integers_render_in_decimal() {
    assert_eq!(Cell::Int(0).literal(), "0");
    assert_eq!(Cell::Int(1).literal(), "1");
    assert_eq!(Cell::Int(42).literal(), "42");
    assert_eq!(Cell::Int(-7).literal(), "-7");
    assert_eq!(Cell::Int(1000).literal(), "1000");
    assert_eq!(Cell::Int(i64::MAX).literal(), "9223372036854775807");
    assert_eq!(Cell::Int(i64::MIN).literal(), "-9223372036854775808");
}

#[test]
fn decimal_text_matches_the_standard_rendering() {
    let values = [0i64, 9, 10, 11, 99, 100, 101, -1, -10, -99, 123456789, i64::MAX, i64::MIN];
    for v in values {
        let mut out = String::new();
        push_signed(&mut out, v);
        assert_eq!(out, v.to_string());
    }
    let values = [0u64, 5, 10, 1234567890, u64::MAX];
    for v in values {
        let mut out = owned("n=");
        push_unsigned(&mut out, v);
        assert_eq!(out, format!("n={}", v));
    }
}

#[test]
fn numbers_and_booleans_stand_bare() {
    assert_eq!(Cell::Float(owned("12.5")).literal(), "12.5");
    assert_eq!(Cell::Float(owned("-0.001")).literal(), "-0.001");
    assert_eq!(Cell::Bool(true).literal(), "true");
    assert_eq!(Cell::Bool(false).literal(), "false");
    assert_eq!(Cell::DateTime(owned("45292.5")).literal(), "45292.5");
}

#[test]
fn text_is_quoted_with_quotes_doubled() {
    assert_eq!(Cell::Text(owned("Ann")).literal(), "'Ann'");
    assert_eq!(Cell::Text(owned("")).literal(), "''");
    assert_eq!(Cell::Text(owned("O'Brien")).literal(), "'O''Brien'");
    assert_eq!(Cell::Text(owned("''")).literal(), "''''''");
    assert_eq!(Cell::Text(owned("a'b'c")).literal(), "'a''b''c'");
    assert_eq!(Cell::Text(owned("say \"hi\"")).literal(), "'say \"hi\"'");
}

#[test]
fn iso_texts_are_quoted_as_they_are() {
    assert_eq!(
        Cell::DateTimeIso(owned("2024-01-02T03:04:05")).literal(),
        "'2024-01-02T03:04:05'"
    );
    assert_eq!(Cell::DurationIso(owned("PT1H30M")).literal(), "'PT1H30M'");
}

#[test]
fn empty_and_error_cells_are_null() {
    assert_eq!(Cell::Empty.literal(), "NULL");
    assert_eq!(Cell::Error(owned("#DIV/0!")).literal(), "NULL");
}

#[test]
fn cells_read_as_plain_text() {
    assert_eq!(Cell::Int(-15).text(), "-15");
    assert_eq!(Cell::Float(owned("12.5")).text(), "12.5");
    assert_eq!(Cell::Bool(true).text(), "true");
    assert_eq!(Cell::Bool(false).text(), "false");
    assert_eq!(Cell::Text(owned("First Name")).text(), "First Name");
    assert_eq!(Cell::Text(owned("O'Brien")).text(), "O'Brien");
    assert_eq!(Cell::DateTime(owned("45292")).text(), "45292");
    assert_eq!(Cell::DateTimeIso(owned("2024-01-02")).text(), "2024-01-02");
    assert_eq!(Cell::DurationIso(owned("PT5S")).text(), "PT5S");
    assert_eq!(Cell::Error(owned("#N/A")).text(), "#N/A");
    assert_eq!(Cell::Empty.text(), "");
}

#[test]
fn quoting_appends_to_what_is_there() {
    let mut out = owned("x = ");
    push_quoted(&mut out, "it's");
    assert_eq!(out, "x = 'it's'");
    let mut out = owned("x = ");
    push_quote_doubled(&mut out, "it's");
    assert_eq!(out, "x = it''s");
}
