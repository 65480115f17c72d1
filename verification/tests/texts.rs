use seeder::calendar::{render_date, render_year};
use seeder::text::{decimal_text, digit_text, join_texts, padded_text, same_text};

#[test]
fn decimal_text_writes_numbers() {
    assert_eq!(decimal_text(0), "0");
    assert_eq!(decimal_text(7), "7");
    assert_eq!(decimal_text(10), "10");
    assert_eq!(decimal_text(1234567890), "1234567890");
    assert_eq!(decimal_text(u64::MAX), "18446744073709551615");
}

#[test]
fn digit_text_writes_each_digit() {
    let all: Vec<&str> = (0u8..10).map(digit_text).collect();
    assert_eq!(all, vec!["0", "1", "2", "3", "4", "5", "6", "7", "8", "9"]);
}

#[test]
fn padded_text_fills_with_zeros() {
    assert_eq!(padded_text(5, 2), "05");
    assert_eq!(padded_text(12, 2), "12");
    assert_eq!(padded_text(123, 2), "123");
    assert_eq!(padded_text(0, 4), "0000");
    assert_eq!(padded_text(0, 0), "0");
    assert_eq!(padded_text(42, 4), "0042");
}

#[test]
fn join_texts_puts_the_separator_between() {
    let none: Vec<String> = vec![];
    assert_eq!(join_texts(&none, ", "), "");
    assert_eq!(join_texts(&vec!["a".to_string()], ", "), "a");
    assert_eq!(join_texts(&vec!["a".to_string(), "b".to_string(), "c".to_string()], ", "), "a, b, c");
    assert_eq!(join_texts(&vec!["".to_string(), "".to_string()], "-"), "-");
}

#[test]
fn same_text_compares_characters() {
    assert!(same_text("", ""));
    assert!(same_text("date", "date"));
    assert!(!same_text("date", "data"));
    assert!(!same_text("date", "dat"));
    assert!(!same_text("dat", "date"));
    assert!(same_text("日付", "日付"));
    assert!(!same_text("日付", "日時"));
}

#[test]
fn dates_are_written_year_month_day() {
    assert_eq!(render_date(2024, 2, 29), "2024-02-29");
    assert_eq!(render_date(1990, 12, 1), "1990-12-01");
    assert_eq!(render_date(0, 1, 1), "0000-01-01");
    assert_eq!(render_date(987, 10, 31), "0987-10-31");
    assert_eq!(render_date(9999, 12, 31), "9999-12-31");
}

#[test]
fn years_beyond_four_digits_carry_a_sign() {
    assert_eq!(render_year(10000), "+10000");
    assert_eq!(render_year(262142), "+262142");
    assert_eq!(render_year(-1), "-0001");
    assert_eq!(render_year(-12345), "-12345");
    assert_eq!(render_year(i32::MIN), "-2147483648");
    assert_eq!(render_date(-44, 3, 15), "-0044-03-15");
}
