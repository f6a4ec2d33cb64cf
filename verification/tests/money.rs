use sgp_core::money::calculate_total_money;
use sgp_core::money::parse_brazilian_money;
use sgp_core::formatting::format_brazilian_decimal;

#[test]
fn parse_formatted_amount() {
    let m = parse_brazilian_money("1.234,56");
    assert_eq!(m.cents, 123456);
    assert_eq!(m.formatted_value, "1.234,56");
    // The fractional value is derived from the cent count.
    assert_eq!(m.cents as f64 / 100.0, 1234.56);
}

#[test]
fn parse_empty_is_zero() {
    let m = parse_brazilian_money("");
    assert_eq!(m.cents, 0);
    assert_eq!(m.formatted_value, "0,00");
    assert_eq!(m.cents as f64 / 100.0, 0.0);
}

#[test]
fn parse_ignores_currency_sign_and_separators() {
    assert_eq!(parse_brazilian_money("R$ 1.234,56").cents, 123456);
    assert_eq!(parse_brazilian_money("1234,56").cents, 123456);
    assert_eq!(parse_brazilian_money("123456").cents, 123456);
}

#[test]
fn parse_takes_last_two_digits_as_cents() {
    // The separators are discarded, not interpreted: "12,3" reads as 123
    // cents, the same as "123".
    let m = parse_brazilian_money("12,3");
    assert_eq!(m.cents, 123);
    assert_eq!(m.formatted_value, "1,23");
}

#[test]
fn parse_without_digits_is_zero() {
    assert_eq!(parse_brazilian_money("abc").cents, 0);
}

#[test]
fn parse_keeps_leading_zeros_harmless() {
    assert_eq!(parse_brazilian_money("00123").cents, 123);
}

#[test]
fn parse_overflowing_digit_string_is_zero() {
    // 21 digits exceed any u64 cent count.
    let m = parse_brazilian_money("999999999999999999999");
    assert_eq!(m.cents, 0);
    assert_eq!(m.formatted_value, "0,00");
}

#[test]
fn parse_format_round_trip_examples() {
    for c in [0i64, 5, 99, 100, 123456, 100000000] {
        let m = parse_brazilian_money(&format_brazilian_decimal(c));
        assert_eq!(m.cents, c as u64);
    }
}

#[test]
fn total_sums_integer_cents() {
    let values = vec!["1,00".to_string(), "2,50".to_string()];
    let m = calculate_total_money(&values);
    assert_eq!(m.cents, 350);
    assert_eq!(m.formatted_value, "3,50");
}

#[test]
fn total_of_empty_list_is_zero() {
    let values: Vec<String> = Vec::new();
    let m = calculate_total_money(&values);
    assert_eq!(m.cents, 0);
    assert_eq!(m.formatted_value, "0,00");
}

#[test]
fn total_saturates_at_the_cent_limit() {
    // Each entry reads as u64::MAX cents; the exact sum exceeds the limit
    // and the total saturates there.
    let max_digits = u64::MAX.to_string();
    let values = vec![max_digits.clone(), max_digits];
    let m = calculate_total_money(&values);
    assert_eq!(m.cents, u64::MAX);
    assert_eq!(m.formatted_value, "184.467.440.737.095.516,15");
}

#[test]
fn total_with_unparsable_entry() {
    let values = vec!["R$ 10,00".to_string(), "nada".to_string(), "0,05".to_string()];
    let m = calculate_total_money(&values);
    assert_eq!(m.cents, 1005);
    assert_eq!(m.formatted_value, "10,05");
}
