use sortable_quick_unique_id::decimal::{decimal_len, push_decimal, push_zero_padded};
use sortable_quick_unique_id::layout::COUNTER_WIDTH;

fn decimal_text(n: u128) -> String {
    let mut out = String::new();
    push_decimal(&mut out, n);
    out
}

fn padded_text(n: u128, width: usize) -> String {
    let mut out = String::new();
    push_zero_padded(&mut out, n, width);
    out
}

#[test]
fn decimal_text_of_small_and_large_numbers() {
    assert_eq!(decimal_text(0), "0");
    assert_eq!(decimal_text(7), "7");
    assert_eq!(decimal_text(10), "10");
    assert_eq!(decimal_text(1234567890), "1234567890");
    assert_eq!(decimal_text(1_700_000_000_000), "1700000000000");
    assert_eq!(decimal_text(u128::MAX), "340282366920938463463374607431768211455");
}

#[test]
fn decimal_text_agrees_with_the_standard_library() {
    let mut n: u128 = 1;
    while n < u128::MAX / 7 {
        assert_eq!(decimal_text(n), n.to_string());
        assert_eq!(decimal_text(n - 1), (n - 1).to_string());
        n *= 7;
    }
}

#[test]
fn decimal_text_is_appended_to_what_is_there() {
    let mut out = String::from("id-");
    push_decimal(&mut out, 305);
    assert_eq!(out, "id-305");
    push_zero_padded(&mut out, 5, 3);
    assert_eq!(out, "id-305005");
}

#[test]
fn the_number_of_digits() {
    assert_eq!(decimal_len(0), 1);
    assert_eq!(decimal_len(9), 1);
    assert_eq!(decimal_len(10), 2);
    assert_eq!(decimal_len(9_999), 4);
    assert_eq!(decimal_len(10_000), 5);
    assert_eq!(decimal_len(u128::MAX), 39);
}

#[test]
fn padding_fills_up_to_the_width() {
    assert_eq!(COUNTER_WIDTH, 4);
    assert_eq!(padded_text(0, 4), "0000");
    assert_eq!(padded_text(7, 4), "0007");
    assert_eq!(padded_text(42, 4), "0042");
    assert_eq!(padded_text(999, 4), "0999");
    assert_eq!(padded_text(9_999, 4), "9999");
    assert_eq!(padded_text(5, 10), "0000000005");
}

#[test]
fn padding_never_cuts_a_number() {
    assert_eq!(padded_text(10_000, 4), "10000");
    assert_eq!(padded_text(123_456, 4), "123456");
    assert_eq!(padded_text(0, 0), "0");
    assert_eq!(padded_text(0, 1), "0");
    assert_eq!(padded_text(31, 1), "31");
    assert_eq!(padded_text(u128::MAX, 4), u128::MAX.to_string());
}

#[test]
fn padding_agrees_with_the_standard_library() {
    for n in [0u128, 1, 9, 10, 99, 100, 999, 1000, 9999, 10000, 99999, 1234567] {
        assert_eq!(padded_text(n, 4), format!("{:04}", n));
    }
}
